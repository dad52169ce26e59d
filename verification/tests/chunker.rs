use rag_pdf_dataset::ingestion::{ChunkerConfig, TextChunker};

#[test]
fn chunker_test_chunking_respects_token_boundaries() {
    let config = ChunkerConfig {
        chunk_size: 10,
        overlap: 2,
        min_chunk_size: 3,
    };
    let chunker = TextChunker::new(config);

    let text = "word one word two word three word four word five word six word seven word eight word nine word ten word eleven word twelve";
    let chunks = chunker.chunk(text);

    assert!(!chunks.is_empty());
    for chunk in &chunks {
        let token_count = chunk.split_whitespace().count();
        assert!(
            token_count <= 10,
            "Chunk exceeds max size: {} tokens",
            token_count
        );
    }
}

#[test]
fn chunker_test_chunking_respects_min_chunk_size() {
    let config = ChunkerConfig {
        chunk_size: 10,
        overlap: 2,
        min_chunk_size: 5,
    };
    let chunker = TextChunker::new(config);

    let text = "a b c d e f g h i j k l m n o p q r s t";
    let chunks = chunker.chunk(text);

    for chunk in &chunks {
        let token_count = chunk.split_whitespace().count();
        assert!(
            token_count >= 5,
            "Chunk below min size: {} tokens",
            token_count
        );
    }
}

#[test]
fn chunker_test_chunking_with_overlap() {
    let config = ChunkerConfig {
        chunk_size: 5,
        overlap: 2,
        min_chunk_size: 3,
    };
    let chunker = TextChunker::new(config);

    let text = "one two three four five six seven eight nine ten";
    let chunks = chunker.chunk(text);

    assert!(chunks.len() > 1, "Expected multiple chunks with overlap");
}

#[test]
fn test_sentence_chunking() {
    let config = ChunkerConfig {
        chunk_size: 20,
        overlap: 5,
        min_chunk_size: 5,
    };
    let chunker = TextChunker::new(config);

    let text = "This is sentence one. This is sentence two. This is sentence three. This is sentence four. This is sentence five. This is sentence six.";
    let chunks = chunker.chunk_by_sentences(text);

    assert!(!chunks.is_empty());
}

#[test]
fn test_chunk_with_metadata() {
    let config = ChunkerConfig {
        chunk_size: 10,
        overlap: 2,
        min_chunk_size: 3,
    };
    let chunker = TextChunker::new(config);

    let text = "one two three four five six seven eight nine ten eleven twelve";
    let chunks = chunker.chunk_with_metadata(text, "doc_123");

    assert!(!chunks.is_empty());
    assert_eq!(chunks[0].document_id, "doc_123");
    assert_eq!(chunks[0].chunk_index, 0);
}

#[test]
fn chunker_test_chapter_detection() {
    let config = ChunkerConfig::default();
    let chunker = TextChunker::new(config);

    let text = "Chapter 1: Introduction\nSome text.\nChapter 2: Methods\nMore text.";
    let chapters = chunker.detect_chapters(text);

    assert!(chapters.len() >= 2);
}

#[test]
fn test_chunking() {
    let config = ChunkerConfig {
        chunk_size: 10,
        overlap: 2,
        min_chunk_size: 3,
    };
    let chunker = TextChunker::new(config);
    let text = "one two three four five six seven eight nine ten eleven twelve";
    let chunks = chunker.chunk(text);
    assert!(!chunks.is_empty());
}

#[test]
fn test_default_chunker_config() {
    let c = ChunkerConfig::default();
    assert_eq!((c.chunk_size, c.overlap, c.min_chunk_size), (512, 64, 50));
}

#[test]
fn test_short_text_is_one_chunk() {
    let chunker = TextChunker::new(ChunkerConfig { chunk_size: 10, overlap: 2, min_chunk_size: 3 });
    assert_eq!(chunker.chunk("alpha beta gamma delta"), vec!["alpha beta gamma delta".to_string()]);
    // below the minimum: no chunk at all
    assert!(chunker.chunk("alpha beta").is_empty());
    assert!(chunker.chunk("").is_empty());
}

#[test]
fn test_word_split_with_overlap_exact() {
    let chunker = TextChunker::new(ChunkerConfig { chunk_size: 5, overlap: 2, min_chunk_size: 3 });
    let chunks = chunker.chunk("one two three four five six seven eight nine ten");
    assert_eq!(
        chunks,
        vec![
            "one two three four five".to_string(),
            "four five six seven eight".to_string(),
            "seven eight nine ten".to_string(),
        ]
    );
}

#[test]
fn test_paragraph_split() {
    let chunker = TextChunker::new(ChunkerConfig { chunk_size: 4, overlap: 0, min_chunk_size: 1 });
    let chunks = chunker.chunk("a b c\n\nd e f\n\ng h");
    assert_eq!(chunks, vec!["a b c".to_string(), "d e f".to_string(), "g h".to_string()]);
}

#[test]
fn test_chunk_with_metadata_fields() {
    let chunker = TextChunker::new(ChunkerConfig { chunk_size: 5, overlap: 2, min_chunk_size: 3 });
    let text = "one two three four five six seven eight nine ten";
    let chunks = chunker.chunk_with_metadata(text, "doc");
    assert_eq!(chunks.len(), 3);
    for (i, c) in chunks.iter().enumerate() {
        assert_eq!(c.id, format!("chunk_doc_{}", i));
        assert_eq!(c.chunk_index, i);
        assert_eq!(c.total_chunks, 3);
        assert_eq!(c.token_count, c.content.split_whitespace().count());
        assert_eq!(c.end_char - c.start_char, c.content.len());
    }
    assert_eq!(chunks[0].start_char, 0);
    assert_eq!(chunks[0].content, "one two three four five");
}

#[test]
fn test_detect_chapters_positions() {
    let chunker = TextChunker::new(ChunkerConfig::default());
    let text = "Chapter 1: Introduction\nSome text.\nChapter 2: Methods\nMore text.";
    let chapters = chunker.detect_chapters(text);
    assert_eq!(chapters.len(), 2);
    assert_eq!(chapters[0], (0, "Chapter 1:".to_string()));
    assert_eq!(chapters[1].0, text.find("Chapter 2").unwrap());
    assert!(chunker.detect_chapters("no headings here").is_empty());
}
