pub mod byte_offsets;
pub mod config;
pub mod dataset;
pub mod embedding;
pub mod ingestion;
pub mod pattern;
pub mod rag;
pub mod strings;
pub mod types;
pub mod unicode;
pub mod utils;
pub mod vectorstore;
