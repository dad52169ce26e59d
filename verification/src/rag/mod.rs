pub mod prompt;
pub mod retriever;

pub use prompt::{Payload, PayloadField, PromptBuilder, RetrievedChunk};
pub use retriever::Retriever;
