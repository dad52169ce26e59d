use rag_pdf_dataset::utils::batches::batch_ranges;
use rag_pdf_dataset::utils::fs::{
    name_extension_of, name_stem_of, path_extension, path_file_name, path_file_stem,
};
use rag_pdf_dataset::utils::{FileUtils, IdGenerator};

fn is_v4(s: &str) -> bool {
    let b = s.as_bytes();
    b.len() == 36
        && s.chars().enumerate().all(|(i, c)| {
            if i == 8 || i == 13 || i == 18 || i == 23 {
                c == '-'
            } else {
                c.is_ascii_digit() || ('a'..='f').contains(&c)
            }
        })
        && b[14] == b'4'
        && matches!(b[19], b'8' | b'9' | b'a' | b'b')
}

#[test]
fn test_file_utils_filename() {
    assert_eq!(FileUtils::filename("books/deep/my_book.pdf"), "my_book.pdf");
    assert_eq!(FileUtils::filename("dir/sub/"), "sub");
    assert_eq!(FileUtils::filename("a/./b.txt"), "b.txt");
    assert_eq!(FileUtils::filename("/"), "unknown");
    assert_eq!(FileUtils::filename("a/.."), "unknown");
    assert_eq!(FileUtils::filename(""), "unknown");
}

#[test]
fn test_path_parts() {
    assert_eq!(path_file_name("x/y.tar.gz"), Some("y.tar.gz".to_string()));
    assert_eq!(path_extension("x/y.tar.gz"), Some("gz".to_string()));
    assert_eq!(path_file_stem("x/y.tar.gz"), Some("y.tar".to_string()));
    assert_eq!(path_extension("x/.hidden"), None);
    assert_eq!(path_file_stem("x/.hidden"), Some(".hidden".to_string()));
    assert_eq!(path_extension("x/noext"), None);
    assert_eq!(path_extension("x/trailing."), Some("".to_string()));
    assert_eq!(path_file_stem(".."), None);
    assert_eq!(name_extension_of("a.b"), Some("b".to_string()));
    assert_eq!(name_stem_of("a.b"), "a");
    assert_eq!(name_stem_of("plain"), "plain");
}

#[test]
fn test_ids() {
    let d = IdGenerator::document_id();
    let c = IdGenerator::chunk_id();
    let b = IdGenerator::batch_id();
    assert!(d.starts_with("doc_") && is_v4(&d[4..]));
    assert!(c.starts_with("chunk_") && is_v4(&c[6..]));
    assert!(b.starts_with("batch_") && is_v4(&b[6..]));
    assert_ne!(IdGenerator::document_id(), d);
}

#[test]
fn test_batch_ranges_match_chunks() {
    for n in 0..25usize {
        for size in 1..7usize {
            let items: Vec<usize> = (0..n).collect();
            let expected: Vec<(usize, usize)> = items
                .chunks(size)
                .map(|c| (c[0], c[c.len() - 1] + 1))
                .collect();
            assert_eq!(batch_ranges(n, size), expected);
        }
    }
}

#[test]
fn test_has_pdf_extension() {
    assert!(FileUtils::has_pdf_extension("books/a.pdf"));
    assert!(!FileUtils::has_pdf_extension("books/a.PDF"));
    assert!(!FileUtils::has_pdf_extension("books/a.epub"));
    assert!(!FileUtils::has_pdf_extension("books/.pdf"));
    assert!(!FileUtils::has_pdf_extension("pdf"));
}
