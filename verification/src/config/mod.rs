pub mod loader;

pub use loader::{
    AppConfig, ApplicationSettings, BatchSettings, CacheSettings, CollectionSettings,
    EmbeddingConfig, EmbeddingSettings, IndexingSettings, OutputSettings, PathSettings,
    ProcessingSettings, QdrantConfig, QdrantSettings,
};
