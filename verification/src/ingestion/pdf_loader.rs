//! The PDF-only loader. Reading the file is I/O; the text extraction it
//! relies on is `BookLoader::extract_pdf_fallback`.
use vstd::prelude::*;

verus! {

/// Handles loading and extracting text from PDF files.
pub struct PdfLoader;

} // verus!
