use rag_pdf_dataset::rag::{Payload, PromptBuilder, RetrievedChunk};

#[test]
fn retrieval_test_prompt_building_with_retrieved_chunks() {
    let query = "What is machine learning?";

    let chunks = vec![
        RetrievedChunk {
            relevance: "0.95".to_string(),
            payload: Payload::new()
                .with_text("content", "Machine learning is a subset of artificial intelligence."),
        },
        RetrievedChunk {
            relevance: "0.87".to_string(),
            payload: Payload::new().with_text(
                "content",
                "It enables computers to learn from data without being explicitly programmed.",
            ),
        },
    ];

    let prompt = PromptBuilder::build_prompt(query, &chunks);

    assert!(prompt.contains("Machine learning"));
    assert!(prompt.contains("artificial intelligence"));
    assert!(prompt.contains("What is machine learning?"));
    assert!(prompt.contains("Context:"));
}

#[test]
fn retrieval_test_prompt_building_with_empty_chunks() {
    let query = "Test query";
    let chunks = vec![];

    let prompt = PromptBuilder::build_prompt(query, &chunks);

    assert!(prompt.contains("Test query"));
    assert!(prompt.contains("Context:"));
}

#[test]
fn test_prompt_structure() {
    let chunks = vec![RetrievedChunk {
        relevance: "0.90".to_string(),
        payload: Payload::new().with_text("content", "Sample content"),
    }];

    let prompt = PromptBuilder::build_prompt("Query?", &chunks);

    // Should have context section
    assert!(prompt.contains("Context:"));
    // Should have question section
    assert!(prompt.contains("Question"));
    // Should contain the query
    assert!(prompt.contains("Query?"));
}

#[test]
fn test_retrieved_chunk_creation() {
    let chunk = RetrievedChunk {
        relevance: "0.95".to_string(),
        payload: Payload::new().with_text("content", "Machine learning is a subset of AI."),
    };
    let score: f32 = chunk.relevance.parse().unwrap();
    assert!((score - 0.95).abs() < 0.01);
    assert!(chunk.payload.get_text("content").is_some());
}
