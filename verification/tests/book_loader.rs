use rag_pdf_dataset::ingestion::{BookFormat, BookLoader};
use rag_pdf_dataset::utils::errors::AppError;

#[test]
fn test_format_detection() {
    assert_eq!(
        BookLoader::detect_format("book.pdf").unwrap(),
        BookFormat::Pdf
    );
    assert_eq!(
        BookLoader::detect_format("book.epub").unwrap(),
        BookFormat::Epub
    );
    assert_eq!(
        BookLoader::detect_format("page.png").unwrap(),
        BookFormat::Scanned
    );
}

#[test]
fn test_title_extraction() {
    assert_eq!(
        BookLoader::extract_title_from_filename("my_test_book.pdf"),
        "my test book"
    );
    assert_eq!(
        BookLoader::extract_title_from_filename("another-book.epub"),
        "another book"
    );
}

#[test]
fn book_loader_test_chapter_detection() {
    let text = "Chapter 1: Introduction\nSome intro text.\nChapter 2: Methods\nSome methods text.";
    let chapters = BookLoader::detect_chapters_from_text(text);
    assert!(chapters.len() >= 2);
}

#[test]
fn test_html_stripping() {
    let html = "<p>Hello <b>world</b></p>";
    assert_eq!(BookLoader::strip_html_tags(html), "Hello world");
}

#[test]
fn test_format_detection_case_and_errors() {
    assert_eq!(BookLoader::detect_format("dir/Scan.JPEG").unwrap(), BookFormat::Scanned);
    assert_eq!(BookLoader::detect_format("BOOK.Pdf").unwrap(), BookFormat::Pdf);
    match BookLoader::detect_format("notes.txt") {
        Err(AppError::Ingestion(m)) => assert_eq!(m, "Unsupported file format: txt"),
        other => panic!("unexpected {:?}", other),
    }
    match BookLoader::detect_format("README") {
        Err(AppError::Ingestion(m)) => assert_eq!(m, "Unsupported file format: "),
        other => panic!("unexpected {:?}", other),
    }
}

#[test]
fn test_find_book_files() {
    let entries = vec![
        ("a/one.pdf".to_string(), true),
        ("a/two.txt".to_string(), true),
        ("a/three.EPUB".to_string(), true),
        ("a/dir.pdf".to_string(), false),
        ("a/four.tif".to_string(), true),
    ];
    assert_eq!(
        BookLoader::find_book_files(&entries),
        vec!["a/one.pdf".to_string(), "a/three.EPUB".to_string(), "a/four.tif".to_string()]
    );
    assert!(BookLoader::find_book_files(&vec![]).is_empty());
}

#[test]
fn test_chapters_exact() {
    let text = "Chapter 1: Introduction\nSome intro text.\nChapter 2: Methods\nSome methods text.";
    let chapters = BookLoader::detect_chapters_from_text(text);
    assert_eq!(chapters.len(), 2);
    assert_eq!(chapters[0].index, 0);
    assert_eq!(chapters[0].title, "Chapter 1:");
    assert_eq!(chapters[0].content, "Chapter 1: Introduction\nSome intro text.");
    assert_eq!(chapters[1].index, 1);
    assert_eq!(chapters[1].title, "Chapter 2:");
    assert_eq!(chapters[1].content, "Chapter 2: Methods\nSome methods text.");
    assert!(chapters.iter().all(|c| c.page_start.is_none() && c.page_end.is_none()));
}

#[test]
fn test_full_text_chapter() {
    let text = "  just some prose  ";
    let chapters = BookLoader::detect_chapters_from_text(text);
    assert_eq!(chapters.len(), 1);
    assert_eq!(chapters[0].index, 0);
    assert_eq!(chapters[0].title, "Full Text");
    assert_eq!(chapters[0].content, text);
}

#[test]
fn test_pdf_fallback() {
    let pdf = b"%PDF-1.4\nobj\nstream\nHello PDF\nworld\nendstream\nignored\n";
    // a line naming `endstream` also names `stream`, so it opens a section
    assert_eq!(BookLoader::extract_pdf_fallback(pdf).unwrap(), "Hello PDF world ignored ");
    match BookLoader::extract_pdf_fallback(b"no streams here\n") {
        Err(AppError::PdfProcessing(m)) => assert_eq!(m, "Could not extract text from PDF"),
        other => panic!("unexpected {:?}", other),
    }
}

#[test]
fn test_epub_text() {
    let epub = "<html><body><p>Caf\u{e9}\tbar</p>\u{1}</body></html>".as_bytes();
    // the control character goes after whitespace was collapsed round it
    assert_eq!(BookLoader::extract_epub_text(epub).unwrap(), " Caf\u{e9} bar  ");
    match BookLoader::extract_epub_text(b"<a><b>") {
        Err(AppError::Ingestion(m)) => assert_eq!(m, "Could not extract text from EPUB"),
        other => panic!("unexpected {:?}", other),
    }
}

#[test]
fn test_pdfium_and_ocr_unavailable() {
    match BookLoader::extract_with_pdfium("x.pdf") {
        Err(AppError::PdfProcessing(m)) => assert_eq!(m, "pdfium not configured"),
        other => panic!("unexpected {:?}", other),
    }
    assert!(matches!(BookLoader::extract_scanned_text("scan"), Err(AppError::Ingestion(_))));
}

#[test]
fn test_scanned_filename() {
    assert_eq!(BookLoader::scanned_filename("books/scans/", true), "scans");
    assert_eq!(BookLoader::scanned_filename("/", true), "scanned_book");
    assert_eq!(BookLoader::scanned_filename("books/page1.png", false), "page1.png");
}

#[test]
fn test_build_content() {
    let book = BookLoader::build_content(
        "my_book.pdf".to_string(),
        42,
        BookFormat::Pdf,
        "Chapter 1: Start\nText.".to_string(),
    );
    assert_eq!(book.title, "my book");
    assert_eq!(book.format, BookFormat::Pdf);
    assert!(book.author.is_none());
    assert_eq!(book.id.len(), 36);
    assert_eq!(book.chapters.len(), 1);
    assert_eq!(book.chapters[0].title, "Chapter 1:");
    assert_eq!(book.metadata.filename, "my_book.pdf");
    assert_eq!(book.metadata.file_size, 42);
    assert!(book.metadata.page_count.is_none());
    assert!(!book.metadata.created_at.is_empty());
    let other = BookLoader::build_content("b.pdf".to_string(), 1, BookFormat::Pdf, "x".to_string());
    assert_ne!(book.id, other.id);
}
