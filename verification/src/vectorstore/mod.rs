pub mod qdrant;

pub use qdrant::QdrantStore;
