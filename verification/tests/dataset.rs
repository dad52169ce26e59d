use rag_pdf_dataset::dataset::chunk_file::chunk_line_contents;
use rag_pdf_dataset::dataset::schema::{Chunk as SchemaChunk, Document};
use rag_pdf_dataset::dataset::{DatasetConfig, DatasetGenerator};
use rag_pdf_dataset::ingestion::Chunk;
use rag_pdf_dataset::types::Metadata;

const CONTENT: &str = "Machine learning is a subset of artificial intelligence. It enables computers to learn from data. Short one.";

fn chunk(id: &str, content: &str) -> Chunk {
    Chunk {
        id: id.to_string(),
        document_id: "doc".to_string(),
        content: content.to_string(),
        chunk_index: 0,
        total_chunks: 1,
        start_char: 0,
        end_char: content.len(),
        token_count: 0,
        metadata: Metadata::default(),
    }
}

#[test]
fn test_dataset_config_default() {
    let c = DatasetConfig::default();
    assert_eq!(c.num_qa_pairs_per_chunk, 3);
    assert_eq!(c.min_answer_length, 20);
    assert_eq!(c.max_answer_length, 500);
    assert_eq!(c.question_types, vec!["factual", "inferential", "comparative"]);
}

#[test]
fn test_generate_qa_pairs() {
    let gen = DatasetGenerator::new(DatasetConfig::default());
    let pairs = gen.generate_qa_pairs(&chunk("c1", CONTENT));
    assert_eq!(pairs.len(), 2);
    assert_eq!(pairs[0].question, "What is Machine?");
    assert_eq!(pairs[0].answer, "Machine learning is a subset of artificial intelligence");
    assert_eq!(pairs[0].context, CONTENT);
    assert_eq!(pairs[0].source, "chunk_c1");
    assert_eq!(pairs[0].question_type, "factual");
    assert_eq!(pairs[1].question, "Explain the following concept: Machine learning is a subset");
    assert_eq!(pairs[1].answer, CONTENT);
    assert_eq!(pairs[1].question_type, "inferential");
}

#[test]
fn test_generate_qa_pairs_truncated_and_empty() {
    let mut config = DatasetConfig::default();
    config.num_qa_pairs_per_chunk = 1;
    let gen = DatasetGenerator::new(config);
    let pairs = gen.generate_qa_pairs(&chunk("c1", CONTENT));
    assert_eq!(pairs.len(), 1);
    assert_eq!(pairs[0].question, "What is Machine?");
    // no sentence long enough
    assert!(gen.generate_qa_pairs(&chunk("c2", "Too short. Also short.")).is_empty());
    // a single sentence gives no "explain" pair
    let one = DatasetGenerator::new(DatasetConfig::default())
        .generate_qa_pairs(&chunk("c3", "the quick brown fox jumps over Lazier dogs"));
    assert_eq!(one.len(), 1);
    assert_eq!(one[0].question, "What is Lazier?");
}

#[test]
fn test_generate_from_chunks() {
    let gen = DatasetGenerator::new(DatasetConfig::default());
    let chunks = vec![chunk("c1", CONTENT), chunk("c2", "tiny")];
    let d = gen.generate_from_chunks(&chunks);
    assert_eq!(d.instructions.len(), 2);
    assert_eq!(d.qa_pairs.len(), 2);
    assert_eq!(d.chat_entries.len(), 2);
    let ins = &d.instructions[0];
    assert_eq!(ins.instruction, "What is Machine?");
    assert_eq!(ins.input.as_deref(), Some(CONTENT));
    assert_eq!(ins.output, "Machine learning is a subset of artificial intelligence");
    assert_eq!(ins.source.as_deref(), Some("chunk_c1"));
    assert_eq!(ins.chunk_id.as_deref(), Some("c1"));
    let qa = &d.qa_pairs[1];
    assert_eq!(qa.question, "Explain the following concept: Machine learning is a subset");
    let meta = qa.metadata.as_ref().unwrap();
    assert_eq!(meta.question_type.as_deref(), Some("inferential"));
    assert_eq!(meta.chunk_id.as_deref(), Some("c1"));
    assert!(meta.book_title.is_none() && meta.chapter.is_none());
    let chat = &d.chat_entries[0].messages;
    assert_eq!(chat.len(), 3);
    assert_eq!(chat[0].role, "system");
    assert_eq!(
        chat[0].content,
        "You are a knowledgeable assistant. Answer questions accurately based on your training."
    );
    assert_eq!((chat[1].role.as_str(), chat[1].content.as_str()), ("user", "What is Machine?"));
    assert_eq!(chat[2].role, "assistant");
    assert_eq!(chat[2].content, "Machine learning is a subset of artificial intelligence");
}

#[test]
fn test_generate_splits_partition() {
    let gen = DatasetGenerator::new(DatasetConfig::default());
    let chunks = vec![chunk("c1", CONTENT), chunk("c2", CONTENT)];
    let d = gen.generate_from_chunks(&chunks);
    assert_eq!(d.instructions.len(), 4);
    let s = gen.generate_splits(&d, 2, 3);
    assert_eq!(s.train.instructions.len(), 2);
    assert_eq!(s.validation.instructions.len(), 1);
    assert_eq!(s.test.instructions.len(), 1);
    assert_eq!(s.validation.qa_pairs[0].question, d.qa_pairs[2].question);
    assert_eq!(s.test.chat_entries[0].messages[2].content, d.chat_entries[3].messages[2].content);
    let empty = gen.generate_splits(&d, 0, 0);
    assert!(empty.train.instructions.is_empty() && empty.validation.instructions.is_empty());
    assert_eq!(empty.test.instructions.len(), 4);
}

#[test]
fn test_schema_records() {
    let doc = Document::new("d1".to_string(), "f.pdf".to_string(), "src".to_string(), "body".to_string());
    assert_eq!(doc.id, "d1");
    assert_eq!(doc.metadata.source_type, "pdf");
    assert_eq!(doc.metadata.created_at, doc.metadata.updated_at);
    assert!(doc.metadata.tags.is_empty());
    let c = SchemaChunk::new(
        "c1".to_string(),
        "d1".to_string(),
        "text".to_string(),
        2,
        5,
        "f.pdf".to_string(),
        "src".to_string(),
        7,
    );
    assert_eq!(c.metadata.chunk_index, 2);
    assert_eq!(c.metadata.total_chunks, 5);
    assert_eq!(c.metadata.token_count, 7);
    assert_eq!((c.metadata.start_char, c.metadata.end_char), (0, 0));
    assert!(!c.metadata.created_at.is_empty());
}

fn is_rfc3339_utc(s: &str) -> bool {
    let b = s.as_bytes();
    let n = b.len();
    if n < 25 || !s.ends_with("+00:00") {
        return false;
    }
    let body = &s[..n - 6];
    let (main, frac) = match body.rfind('.') {
        Some(i) => (&body[..i], &body[i + 1..]),
        None => (body, ""),
    };
    let m = main.as_bytes();
    let k = m.len();
    let digit = |c: u8| c.is_ascii_digit();
    (frac.is_empty() || [3, 6, 9].contains(&frac.len()))
        && frac.bytes().all(digit)
        && k >= 19
        && m[k - 9] == b'T'
        && m[k - 15] == b'-'
        && m[k - 12] == b'-'
        && m[k - 6] == b':'
        && m[k - 3] == b':'
        && [19, 18, 17, 16, 14, 13, 11, 10, 8, 7, 5, 4, 2, 1].iter().all(|&d| digit(m[k - d]))
}

#[test]
fn test_metadata_time_form() {
    let m = Metadata::default();
    assert!(is_rfc3339_utc(&m.created_at), "{}", m.created_at);
    assert_eq!(m.created_at, m.updated_at);
    let c = chunk("c", CONTENT);
    assert!(is_rfc3339_utc(&c.metadata.created_at));
}

#[test]
fn test_generate_concatenation() {
    let gen = DatasetGenerator::new(DatasetConfig::default());
    let a = vec![chunk("a", CONTENT)];
    let b = vec![chunk("b", CONTENT), chunk("c", "tiny")];
    let ab: Vec<_> = vec![chunk("a", CONTENT), chunk("b", CONTENT), chunk("c", "tiny")];
    let (da, db, dab) = (gen.generate_from_chunks(&a), gen.generate_from_chunks(&b), gen.generate_from_chunks(&ab));
    let ids = |d: &rag_pdf_dataset::dataset::Dataset| -> Vec<(String, Option<String>)> {
        d.instructions.iter().map(|e| (e.instruction.clone(), e.chunk_id.clone())).collect()
    };
    let mut joined = ids(&da);
    joined.extend(ids(&db));
    assert_eq!(ids(&dab), joined);
    assert_eq!(dab.qa_pairs.len(), da.qa_pairs.len() + db.qa_pairs.len());
    assert_eq!(dab.chat_entries.len(), da.chat_entries.len() + db.chat_entries.len());
}

#[test]
fn test_chunk_line_contents() {
    let lines: Vec<String> = vec![
        "{\"id\":\"a\",\"content\":\"first\"}".to_string(),
        "not json".to_string(),
        "{\"content\":3}".to_string(),
        "[\"content\"]".to_string(),
        "{\"content\":\"second \\\"q\\\"\",\"x\":1}".to_string(),
        "".to_string(),
    ];
    assert_eq!(
        chunk_line_contents(&lines),
        vec![(0, "first".to_string()), (4, "second \"q\"".to_string())]
    );
    assert!(chunk_line_contents(&vec![]).is_empty());
}
