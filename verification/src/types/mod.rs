pub mod metadata;

pub use metadata::Metadata;
