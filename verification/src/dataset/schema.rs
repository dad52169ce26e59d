//! Document and chunk records with file-level metadata.
use vstd::prelude::*;
use crate::types::metadata::{is_rfc3339_utc, now_rfc3339, Metadata};

verus! {

/// Represents a complete document
#[derive(Debug, Clone)]
pub struct Document {
    pub id: String,
    pub filename: String,
    pub source: String,
    pub content: String,
    pub metadata: Metadata,
}

/// Represents a chunk of a document
#[derive(Debug, Clone)]
pub struct Chunk {
    pub id: String,
    pub document_id: String,
    pub content: String,
    pub chunk_index: usize,
    pub total_chunks: usize,
    pub metadata: ChunkMetadata,
}

/// Metadata specific to a chunk. `created_at` is an RFC 3339 time.
#[derive(Debug, Clone)]
pub struct ChunkMetadata {
    pub filename: String,
    pub source: String,
    pub chunk_index: usize,
    pub total_chunks: usize,
    pub start_char: usize,
    pub end_char: usize,
    pub token_count: usize,
    pub created_at: String,
}

impl Document {
    /// A document with default metadata stamped with the current time.
    pub fn new(id: String, filename: String, source: String, content: String) -> (d: Self)
        ensures
            d.id == id,
            d.filename == filename,
            d.source == source,
            d.content == content,
            is_rfc3339_utc(d.metadata.created_at@),
            d.metadata.created_at@ == d.metadata.updated_at@,
            d.metadata.source_type@ == "pdf"@,
            d.metadata.tags@.len() == 0,
    {
        Document { id, filename, source, content, metadata: Metadata::default() }
    }
}

impl Chunk {
    /// A chunk whose metadata repeats its position and token count, with an
    /// empty character range and the current time.
    pub fn new(
        id: String,
        document_id: String,
        content: String,
        chunk_index: usize,
        total_chunks: usize,
        filename: String,
        source: String,
        token_count: usize,
    ) -> (c: Self)
        ensures
            c.id == id,
            c.document_id == document_id,
            c.content == content,
            c.chunk_index == chunk_index,
            c.total_chunks == total_chunks,
            c.metadata.filename == filename,
            c.metadata.source == source,
            c.metadata.chunk_index == chunk_index,
            c.metadata.total_chunks == total_chunks,
            c.metadata.start_char == 0,
            c.metadata.end_char == 0,
            c.metadata.token_count == token_count,
            is_rfc3339_utc(c.metadata.created_at@),
    {
        let created_at = now_rfc3339();
        Chunk {
            id,
            document_id,
            content,
            chunk_index,
            total_chunks,
            metadata: ChunkMetadata {
                filename,
                source,
                chunk_index,
                total_chunks,
                start_char: 0,
                end_char: 0,
                token_count,
                created_at,
            },
        }
    }
}

} // verus!
