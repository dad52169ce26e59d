use rag_pdf_dataset::utils::AppError;

#[test]
fn test_error_messages() {
    assert_eq!(AppError::Config("bad".to_string()).message(), "Configuration error: bad");
    assert_eq!(AppError::Embedding("e".to_string()).message(), "Embedding error: e");
    assert_eq!(AppError::Vectorstore("v".to_string()).message(), "Vectorstore error: v");
    assert_eq!(AppError::PdfProcessing("p".to_string()).message(), "PDF processing error: p");
    assert_eq!(AppError::Ingestion("i".to_string()).message(), "Ingestion error: i");
    assert_eq!(AppError::Dataset("d".to_string()).message(), "Dataset error: d");
    assert_eq!(AppError::Unknown("u".to_string()).message(), "Unknown error: u");
    let io = std::io::Error::new(std::io::ErrorKind::Other, "disk gone");
    assert_eq!(AppError::Io(io).message(), "IO error: disk gone");
}
