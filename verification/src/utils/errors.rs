//! Unified error handling.
use vstd::prelude::*;
use crate::strings::push_str;
use vstd::string::*;

verus! {

#[verifier::external_type_specification]
#[verifier::external_body]
pub struct ExIoError(std::io::Error);

/// Unified error handling
#[derive(Debug)]
pub enum AppError {
    Io(std::io::Error),
    Config(String),
    Embedding(String),
    Vectorstore(String),
    PdfProcessing(String),
    Ingestion(String),
    Dataset(String),
    Unknown(String),
}

/// `std::io::Error`'s `to_string()`: its message. The text comes from the
/// platform for operating-system errors; nothing is promised of it.
#[verifier::external_body]
fn io_error_text(e: &std::io::Error) -> String {
    e.to_string()
}

/// `prefix` followed by `detail`.
fn prefixed(prefix: &str, detail: &str) -> (r: String)
    ensures
        r@ == prefix@ + detail@,
{
    let mut r = String::from_str(prefix);
    push_str(&mut r, detail);
    r
}

impl AppError {
    /// The message the error displays: a prefix naming its kind, then its
    /// detail.
    pub fn message(&self) -> (m: String)
        ensures
            match self {
                AppError::Io(_) => m@.take(10) == "IO error: "@ && m@.len() >= 10,
                AppError::Config(s) => m@ == "Configuration error: "@ + s@,
                AppError::Embedding(s) => m@ == "Embedding error: "@ + s@,
                AppError::Vectorstore(s) => m@ == "Vectorstore error: "@ + s@,
                AppError::PdfProcessing(s) => m@ == "PDF processing error: "@ + s@,
                AppError::Ingestion(s) => m@ == "Ingestion error: "@ + s@,
                AppError::Dataset(s) => m@ == "Dataset error: "@ + s@,
                AppError::Unknown(s) => m@ == "Unknown error: "@ + s@,
            },
    {
        match self {
            AppError::Io(e) => {
                let t = io_error_text(e);
                let m = prefixed("IO error: ", t.as_str());
                proof {
                    reveal_strlit("IO error: ");
                    assert(m@.take(10) =~= "IO error: "@);
                }
                m
            },
            AppError::Config(s) => prefixed("Configuration error: ", s.as_str()),
            AppError::Embedding(s) => prefixed("Embedding error: ", s.as_str()),
            AppError::Vectorstore(s) => prefixed("Vectorstore error: ", s.as_str()),
            AppError::PdfProcessing(s) => prefixed("PDF processing error: ", s.as_str()),
            AppError::Ingestion(s) => prefixed("Ingestion error: ", s.as_str()),
            AppError::Dataset(s) => prefixed("Dataset error: ", s.as_str()),
            AppError::Unknown(s) => prefixed("Unknown error: ", s.as_str()),
        }
    }
}

} // verus!
