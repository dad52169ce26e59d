pub mod client;

pub use client::{EmbeddingBatcher, EmbeddingClient, RetryAction};
