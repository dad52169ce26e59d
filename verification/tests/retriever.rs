use rag_pdf_dataset::config::{
    BatchSettings, CacheSettings, CollectionSettings, EmbeddingConfig, EmbeddingSettings,
    IndexingSettings, QdrantConfig, QdrantSettings,
};
use rag_pdf_dataset::embedding::EmbeddingClient;
use rag_pdf_dataset::rag::Retriever;
use rag_pdf_dataset::vectorstore::QdrantStore;

fn retriever() -> Retriever {
    let e = EmbeddingConfig {
        embedding: EmbeddingSettings {
            model: "m".to_string(),
            dimension: 8,
            endpoint: "http://e".to_string(),
            timeout_secs: 5,
        },
        batch: BatchSettings { size: 4, max_retries: 2, retry_delay_ms: 10 },
        cache: CacheSettings { enabled: false, max_size_mb: 1, ttl_secs: 1 },
    };
    let q = QdrantConfig {
        qdrant: QdrantSettings { url: "http://q".to_string(), api_key: String::new(), timeout_secs: 5 },
        collection: CollectionSettings {
            name: "c".to_string(),
            vector_size: 8,
            distance_metric: "Cosine".to_string(),
            on_disk: false,
        },
        indexing: IndexingSettings { hnsw_m: 1, hnsw_ef_construct: 1, hnsw_ef_search: 1 },
    };
    Retriever::new(EmbeddingClient::new(&e), QdrantStore::new(&q))
}

/// What a stable descending sort followed by truncation gives.
fn reference(keys: &[u32], k: usize) -> Vec<usize> {
    let mut idx: Vec<usize> = (0..keys.len()).collect();
    idx.sort_by(|a, b| keys[*b].cmp(&keys[*a]));
    idx.truncate(k);
    idx
}

#[test]
fn test_rank_candidates_exact() {
    assert_eq!(Retriever::rank_candidates(&vec![5, 9, 5, 1, 9], 3), vec![1, 4, 0]);
    assert_eq!(Retriever::rank_candidates(&vec![5, 9, 5, 1, 9], 10), vec![1, 4, 0, 2, 3]);
    assert!(Retriever::rank_candidates(&vec![3, 2], 0).is_empty());
    assert!(Retriever::rank_candidates(&vec![], 4).is_empty());
}

#[test]
fn test_rank_candidates_matches_stable_sort() {
    let mut seed: u32 = 7;
    for n in 0..12usize {
        for k in 0..14usize {
            let keys: Vec<u32> = (0..n)
                .map(|_| {
                    seed = seed.wrapping_mul(1103515245).wrapping_add(12345);
                    (seed >> 16) % 5
                })
                .collect();
            assert_eq!(Retriever::rank_candidates(&keys, k), reference(&keys, k));
        }
    }
}

#[test]
fn test_keep_at_least() {
    assert_eq!(Retriever::keep_at_least(&vec![9, 7, 7, 3, 8], 7, 10), vec![0, 1, 2, 4]);
    assert_eq!(Retriever::keep_at_least(&vec![9, 7, 7, 3, 8], 7, 2), vec![0, 1]);
    assert!(Retriever::keep_at_least(&vec![1, 2], 5, 3).is_empty());
}

#[test]
fn test_candidate_counts() {
    assert_eq!(Retriever::candidate_count(5), 20);
    assert_eq!(Retriever::threshold_pool(5), 10);
}

#[test]
fn test_retriever_parts() {
    let r = retriever();
    assert_eq!(r.embedding_client().get_dimension(), 8);
    assert_eq!(r.vectorstore().collection_name(), "c");
    assert_eq!(r.embedding_client().embeddings_url(), "http://e/embeddings");
}
