# rag-pdf-dataset

A book-to-dataset pipeline for retrieval-augmented generation: books (PDF,
EPUB, scanned pages) are turned into text, cleaned, split into overlapping
token-bounded chunks, embedded, indexed in a Qdrant vector store, and used to
generate fine-tuning datasets (instruction, Q&A and chat formats).

## Layout

- `src/` — the library, verified with Verus. Its public functions carry
  `ensures` (and, where inputs are limited, `requires`) clauses over
  mathematical models (`Seq<char>` for text, spec functions for each rule);
  the few trusted wrappers of outside functions say what the outside source
  shows of their results.
  - `ingestion/` — format detection, text extraction from PDF/EPUB bytes,
    chapter detection, cleaning, tokenization, chunking.
  - `dataset/` — Q&A pair generation, the three dataset formats, splits.
  - `embedding/` — client settings, the local embedding's word buckets,
    batching and the retry decision.
  - `vectorstore/` — store settings, REST endpoints, collection set-up steps.
  - `rag/` — prompt construction and re-ranking of retrieved candidates.
  - `pattern.rs`, `unicode.rs` — the regular-expression and Unicode
    operations, named through trusted wrappers of `regex`,
    `unicode-normalization` and std.
  - `strings.rs`, `byte_offsets.rs` — string operations with specifications.
- `app/` — the command-line program: configuration files, the file system,
  HTTP calls, floating-point vectors and the pipelines.
- `tests/` — tests run against the compiled library.
