use rag_pdf_dataset::ingestion::TextCleaner;

#[test]
fn cleaner_test_clean_whitespace() {
    let cleaner = TextCleaner::new();
    assert_eq!(cleaner.clean("hello   world"), "hello world");
    assert_eq!(cleaner.clean("hello\n\nworld"), "hello world");
}

#[test]
fn test_fix_hyphenation() {
    let cleaner = TextCleaner::new();
    assert_eq!(cleaner.fix_hyphenation("exam-\nple"), "example");
    assert_eq!(cleaner.fix_hyphenation("pro-\ngram"), "program");
}

#[test]
fn test_remove_links() {
    let cleaner = TextCleaner::new();
    let text = "Visit https://example.com for info";
    assert!(!cleaner.remove_links(text).contains("https://"));
}

#[test]
fn test_remove_emails() {
    let cleaner = TextCleaner::new();
    let text = "Contact test@example.com for help";
    assert!(!cleaner.remove_links(text).contains("test@example.com"));
}

#[test]
fn test_normalize_punctuation() {
    let cleaner = TextCleaner::new();
    let text = "He said \u{201C}hello\u{201D}";
    assert_eq!(cleaner.normalize_punctuation(text), "He said \"hello\"");
}

#[test]
fn test_full_clean() {
    let cleaner = TextCleaner::new();
    let text = "  This   is   a   test-\nwith   https://example.com  ";
    let cleaned = cleaner.full_clean(text);
    assert!(!cleaned.contains("https://"));
    assert!(cleaned.contains("testwith"));
}

#[test]
fn test_clean_exact_values() {
    let cleaner = TextCleaner::new();
    // NFKC folds the ligature and the full-width letter
    assert_eq!(cleaner.clean("  \u{FB01}ne \u{FF21}  "), "fine A");
    assert_eq!(cleaner.clean("   "), "");
    assert_eq!(cleaner.clean("exam-\nple  text"), "example text");
}

#[test]
fn test_remove_links_exact() {
    let cleaner = TextCleaner::new();
    assert_eq!(
        cleaner.remove_links("Visit https://example.com or mail a.b@c.org now"),
        "Visit  or mail  now"
    );
    assert_eq!(cleaner.remove_links("no links"), "no links");
}

#[test]
fn test_remove_special_chars() {
    let cleaner = TextCleaner::new();
    assert_eq!(cleaner.remove_special_chars("a#b$c (d) [e]! é"), "abc (d) [e]! é");
    assert_eq!(cleaner.remove_special_chars("@@@"), "");
}

#[test]
fn test_remove_artifacts() {
    let cleaner = TextCleaner::new();
    assert_eq!(cleaner.remove_artifacts("Intro\n12\n\n  \nBody text\n 7 \nEnd"), "Intro\nBody text\nEnd");
    // a number too large for u32 is kept as content
    assert_eq!(cleaner.remove_artifacts("99999999999"), "99999999999");
    assert_eq!(cleaner.remove_artifacts(""), "");
}

#[test]
fn test_normalize_punctuation_all() {
    let cleaner = TextCleaner::new();
    assert_eq!(
        cleaner.normalize_punctuation("\u{2018}a\u{2019} \u{2014} b \u{2013} c"),
        "'a' - b - c"
    );
}

#[test]
fn test_full_clean_exact() {
    let cleaner = TextCleaner::new();
    assert_eq!(
        cleaner.full_clean("  This   is   a   test-\nwith   https://example.com  "),
        "This is a testwith"
    );
    assert_eq!(cleaner.full_clean("Title\n3\n\u{201C}Quote\u{201D}"), "Title \"Quote\"");
}
