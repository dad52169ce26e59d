use rag_pdf_dataset::config::{CollectionSettings, IndexingSettings, QdrantConfig, QdrantSettings};
use rag_pdf_dataset::vectorstore::QdrantStore;

fn config(api_key: &str) -> QdrantConfig {
    QdrantConfig {
        qdrant: QdrantSettings {
            url: "http://localhost:6333".to_string(),
            api_key: api_key.to_string(),
            timeout_secs: 30,
        },
        collection: CollectionSettings {
            name: "books".to_string(),
            vector_size: 384,
            distance_metric: "Cosine".to_string(),
            on_disk: false,
        },
        indexing: IndexingSettings {
            hnsw_m: 16,
            hnsw_ef_construct: 100,
            hnsw_ef_search: 64,
        },
    }
}

#[test]
fn test_store_settings() {
    let store = QdrantStore::new(&config(""));
    assert_eq!(store.api_key(), None);
    assert_eq!(store.collection_name(), "books");
    assert_eq!(store.vector_size(), 384);
    let keyed = QdrantStore::new(&config("secret"));
    assert_eq!(keyed.api_key(), Some("secret"));
}

#[test]
fn test_store_urls() {
    let store = QdrantStore::new(&config(""));
    assert_eq!(store.collection_url(), "http://localhost:6333/collections/books");
    assert_eq!(store.points_url(), "http://localhost:6333/collections/books/points");
    assert_eq!(store.search_url(), "http://localhost:6333/collections/books/points/search");
    assert_eq!(store.delete_url(), "http://localhost:6333/collections/books/points/delete");
}

#[test]
fn test_insert_batches() {
    let store = QdrantStore::new(&config(""));
    assert!(store.insert_batches(0).is_empty());
    assert_eq!(store.insert_batches(100), vec![(0, 100)]);
    assert_eq!(store.insert_batches(250), vec![(0, 100), (100, 200), (200, 250)]);
}

use rag_pdf_dataset::vectorstore::qdrant::{CollectionReply, CollectionStep};

#[test]
fn test_create_body() {
    let store = QdrantStore::new(&config(""));
    let body = store.create_body();
    assert_eq!(
        body,
        "{\"vectors\":{\"size\":384,\"distance\":\"Cosine\"},\"optimizers_config\":{\"memmap_threshold\":20000},\"on_disk_payload\":true}"
    );
}

#[test]
fn test_ensure_collection_steps() {
    let store = QdrantStore::new(&config(""));
    let url = "http://localhost:6333/collections/books";
    match store.ensure_collection_step(&CollectionReply::Start) {
        CollectionStep::Check { url: u } => assert_eq!(u, url),
        _ => panic!("expected a check"),
    }
    assert!(matches!(
        store.ensure_collection_step(&CollectionReply::Checked { success: true }),
        CollectionStep::Ready
    ));
    match store.ensure_collection_step(&CollectionReply::Checked { success: false }) {
        CollectionStep::Create { url: u, body } => {
            assert_eq!(u, url);
            assert_eq!(body, store.create_body());
        }
        _ => panic!("expected a create"),
    }
    assert!(matches!(
        store.ensure_collection_step(&CollectionReply::Created { success: true, text: String::new() }),
        CollectionStep::Ready
    ));
    match store.ensure_collection_step(&CollectionReply::Created { success: false, text: "boom".to_string() }) {
        CollectionStep::Failed { message } => assert_eq!(message, "Failed to create collection: boom"),
        _ => panic!("expected a failure"),
    }
}

#[test]
fn test_recreate_collection_steps() {
    let store = QdrantStore::new(&config(""));
    match store.recreate_collection_step(&CollectionReply::Start) {
        CollectionStep::Drop { url } => assert_eq!(url, "http://localhost:6333/collections/books"),
        _ => panic!("expected a drop"),
    }
    assert!(matches!(store.recreate_collection_step(&CollectionReply::Dropped), CollectionStep::Check { .. }));
}
