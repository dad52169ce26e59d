use rag_pdf_dataset::rag::{Payload, PromptBuilder, RetrievedChunk};

fn chunk(relevance: &str, payload: Payload) -> RetrievedChunk {
    RetrievedChunk {
        relevance: relevance.to_string(),
        payload,
    }
}

#[test]
fn prompt_test_prompt_building_with_retrieved_chunks() {
    let query = "What is machine learning?";
    let chunks = vec![
        chunk(
            "0.95",
            Payload::new().with_text("content", "Machine learning is a subset of artificial intelligence."),
        ),
        chunk(
            "0.87",
            Payload::new().with_text(
                "content",
                "It enables computers to learn from data without being explicitly programmed.",
            ),
        ),
    ];

    let prompt = PromptBuilder::build_prompt(query, &chunks);

    assert!(prompt.contains("Machine learning"));
    assert!(prompt.contains("artificial intelligence"));
    assert!(prompt.contains("What is machine learning?"));
    assert!(prompt.contains("Context:"));
}

#[test]
fn prompt_test_prompt_building_with_empty_chunks() {
    let query = "Test query";
    let chunks = vec![];

    let prompt = PromptBuilder::build_prompt(query, &chunks);

    assert!(prompt.contains("Test query"));
    assert!(prompt.contains("Context:"));
}

#[test]
fn test_rag_prompt_structure() {
    let chunks = vec![chunk(
        "0.90",
        Payload::new()
            .with_text("content", "Sample content")
            .with_text("source", "Test Book, Chapter 1"),
    )];

    let prompt = PromptBuilder::build_rag_prompt("Query?", &chunks);

    assert!(prompt.contains("Context:"));
    assert!(prompt.contains("Question:"));
    assert!(prompt.contains("Query?"));
    assert!(prompt.contains("Sample content"));
    assert!(prompt.contains("Test Book"));
}

#[test]
fn test_qa_generation_prompt() {
    let prompt = PromptBuilder::build_qa_generation_prompt("Test context", 3);
    assert!(prompt.contains("3"));
    assert!(prompt.contains("Test context"));
    assert!(prompt.contains("question-answer"));
}

#[test]
fn test_instruction_generation_prompt() {
    let prompt = PromptBuilder::build_instruction_generation_prompt("Test context");
    assert!(prompt.contains("Test context"));
    assert!(prompt.contains("instruction"));
}

#[test]
fn test_build_prompt_exact() {
    let chunks = vec![
        chunk("0.95", Payload::new().with_text("content", "First.")),
        chunk("0.50", Payload::new().with_other("content")),
    ];
    assert_eq!(
        PromptBuilder::build_prompt("Why?", &chunks),
        "Answer the question based on the provided context.\n\nContext:\n\
         --- Source 1 (relevance: 0.95) ---\nFirst.\n\
         --- Source 2 (relevance: 0.50) ---\n\n\
         \n--- Question ---\nWhy?\n\nAnswer:"
    );
    assert_eq!(
        PromptBuilder::build_prompt("Q", &[]),
        "Answer the question based on the provided context.\n\nContext:\n\n--- Question ---\nQ\n\nAnswer:"
    );
}

#[test]
fn test_build_rag_prompt_exact() {
    let chunks = vec![
        chunk("0.9", Payload::new().with_text("source", "Book A").with_text("content", "Alpha")),
        chunk("0.8", Payload::new().with_text("content", "Beta")),
    ];
    let prompt = PromptBuilder::build_rag_prompt("What?", &chunks);
    assert!(prompt.starts_with(
        "You are a helpful assistant that answers questions based on the provided context.\nInstructions:\n"
    ));
    assert!(prompt.ends_with(
        "Context:\n[Source 1 - Book A]\nAlpha\n\n[Source 2 - Unknown source]\nBeta\n\nQuestion: What?\n\nAnswer:"
    ));
}

#[test]
fn test_qa_prompt_exact_count() {
    let prompt = PromptBuilder::build_qa_generation_prompt("ctx", 12);
    assert!(prompt.starts_with("Given the following text, generate 12 diverse question-answer pairs.\n"));
    assert!(prompt.contains("Text:\nctx\n\nGenerate 12 question-answer pairs in JSON format:\n"));
}

#[test]
fn test_get_string_field() {
    let payload = Payload::new()
        .with_other("count")
        .with_text("content", "text")
        .with_text("content", "later");
    assert_eq!(PromptBuilder::get_string_field(&payload, "content"), Some("text".to_string()));
    assert_eq!(PromptBuilder::get_string_field(&payload, "count"), None);
    assert_eq!(PromptBuilder::get_string_field(&payload, "missing"), None);
}
