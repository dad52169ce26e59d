pub mod book_loader;
pub mod chunker;
pub mod cleaner;
pub mod pdf_loader;
pub mod tokenizer;

pub use book_loader::{BookContent, BookFormat, BookLoader, BookMetadata, Chapter};
pub use chunker::{Chunk, ChunkerConfig, TextChunker};
pub use cleaner::TextCleaner;
pub use pdf_loader::PdfLoader;
pub use tokenizer::Tokenizer;
