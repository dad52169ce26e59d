use rag_pdf_dataset::ingestion::Tokenizer;

#[test]
fn tokenizer_test_tokenize() {
    let tokenizer = Tokenizer::new();
    let tokens = tokenizer.tokenize("Hello World");
    assert_eq!(tokens, vec!["hello", "world"]);
}

#[test]
fn tokenizer_test_count_tokens() {
    let tokenizer = Tokenizer::new();
    assert_eq!(tokenizer.count_tokens("one two three"), 3);
}

#[test]
fn test_sentence_split() {
    let tokenizer = Tokenizer::new();
    let sentences = tokenizer.tokenize_sentences("Hello world. How are you? I am fine.");
    assert!(sentences.len() >= 2);
}

#[test]
fn test_sentence_with_abbreviation() {
    let tokenizer = Tokenizer::new();
    let sentences = tokenizer.tokenize_sentences("Dr. Smith went home. He was tired.");
    assert!(sentences.len() >= 1);
}

#[test]
fn test_estimate_tokens() {
    let tokenizer = Tokenizer::new();
    let estimate = tokenizer.estimate_tokens("This is a test sentence.");
    assert!(estimate > 0);
}

#[test]
fn test_tokenize_punctuation_and_case() {
    let tokenizer = Tokenizer::new();
    assert_eq!(
        tokenizer.tokenize("It's 2024, ÉTÉ! foo_bar"),
        vec!["it", "s", "2024", "été", "foo_bar"]
    );
    assert!(tokenizer.tokenize("  ,;  ").is_empty());
    assert_eq!(tokenizer.count_tokens(""), 0);
}

#[test]
fn test_sentences_exact() {
    let tokenizer = Tokenizer::new();
    assert_eq!(
        tokenizer.tokenize_sentences("Hello world. How are you? I am fine."),
        vec!["Hello world.", "How are you?", "I am fine."]
    );
    // the abbreviation is cut as a sentence of its own
    assert_eq!(
        tokenizer.tokenize_sentences("Dr. Smith went home. He was tired."),
        vec!["Dr.", "Smith went home.", "He was tired."]
    );
    // a lone terminator is too short to end a sentence
    assert_eq!(tokenizer.tokenize_sentences(". a! tail"), vec![". a!", "tail"]);
    assert!(tokenizer.tokenize_sentences("   ").is_empty());
}

#[test]
fn test_estimate_tokens_exact() {
    let tokenizer = Tokenizer::new();
    assert_eq!(tokenizer.estimate_tokens("This is a test sentence."), 6);
    assert_eq!(tokenizer.estimate_tokens(""), 0);
    assert_eq!(tokenizer.estimate_tokens("abcde"), 2);
    // bytes, not characters
    assert_eq!(tokenizer.estimate_tokens("éé"), 1);
}

#[test]
fn test_count_chars() {
    let tokenizer = Tokenizer::new();
    assert_eq!(tokenizer.count_chars("héllo"), 5);
    assert_eq!(tokenizer.count_chars(""), 0);
}

#[test]
fn test_count_matches_tokenize() {
    let tokenizer = Tokenizer::new();
    for text in ["", "one", "It's a dog-eat-dog world, 2 x 3!", "  spaced   out  "] {
        assert_eq!(tokenizer.count_tokens(text), tokenizer.tokenize(text).len());
    }
}
