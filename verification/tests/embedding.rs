use rag_pdf_dataset::config::{BatchSettings, CacheSettings, EmbeddingConfig, EmbeddingSettings};
use rag_pdf_dataset::embedding::{EmbeddingBatcher, EmbeddingClient, RetryAction};

fn test_config() -> EmbeddingConfig {
    EmbeddingConfig {
        embedding: EmbeddingSettings {
            model: "sentence-transformers/all-MiniLM-L6-v2".to_string(),
            dimension: 384,
            endpoint: "http://localhost:8000".to_string(),
            timeout_secs: 30,
        },
        batch: BatchSettings {
            size: 32,
            max_retries: 3,
            retry_delay_ms: 1000,
        },
        cache: CacheSettings {
            enabled: true,
            max_size_mb: 1024,
            ttl_secs: 86400,
        },
    }
}

#[test]
fn embedding_test_embedding_vector_shape() {
    let config = test_config();
    let client = EmbeddingClient::new(&config);

    // Verify dimension matches config
    assert_eq!(client.get_dimension(), 384);
}

#[test]
fn embedding_test_embedding_model_name() {
    let config = test_config();
    let client = EmbeddingClient::new(&config);

    assert_eq!(client.get_model(), "sentence-transformers/all-MiniLM-L6-v2");
}

#[test]
fn client_test_embedding_vector_shape() {
    let config = test_config();
    let client = EmbeddingClient::new(&config);
    assert_eq!(client.get_dimension(), 384);
}

#[test]
fn client_test_embedding_model_name() {
    let config = test_config();
    let client = EmbeddingClient::new(&config);
    assert_eq!(client.get_model(), "sentence-transformers/all-MiniLM-L6-v2");
}

#[test]
fn test_new_local_client() {
    let config = test_config();
    let remote = EmbeddingClient::new(&config);
    assert!(!remote.is_local());
    let client = EmbeddingClient::new_local(&config, "./models/test");
    assert!(client.is_local());
    assert_eq!(client.get_dimension(), 384);
    assert_eq!(client.endpoint(), "http://localhost:8000");
    assert_eq!(client.timeout_secs(), 30);
}

#[test]
fn test_hash_word_djb2() {
    let client = EmbeddingClient::new(&test_config());
    assert_eq!(client.hash_word(""), 5381);
    assert_eq!(client.hash_word("a"), 5381 * 33 + 97);
    assert_eq!(client.hash_word("ab"), (5381u64 * 33 + 97) * 33 + 98);
    // wraps around on long words instead of overflowing
    let long = "x".repeat(100);
    let mut h: u64 = 5381;
    for b in long.bytes() {
        h = h.wrapping_mul(33).wrapping_add(b as u64);
    }
    assert_eq!(client.hash_word(&long), h);
}

#[test]
fn test_local_buckets() {
    let client = EmbeddingClient::new_local(&test_config(), "./models/test");
    let buckets = client.local_buckets("Hello world  Hello");
    assert_eq!(buckets.len(), 3);
    assert_eq!(buckets[0], buckets[2]);
    assert_eq!(buckets[0], (client.hash_word("Hello") as usize) % 384);
    assert_eq!(buckets[1], (client.hash_word("world") as usize) % 384);
    assert!(client.local_buckets("   ").is_empty());
}

#[test]
fn test_batch_ranges() {
    let config = test_config();
    let batcher = EmbeddingBatcher::new(EmbeddingClient::new(&config), &config);
    assert_eq!(batcher.batch_ranges(0), vec![]);
    assert_eq!(batcher.batch_ranges(32), vec![(0, 32)]);
    assert_eq!(batcher.batch_ranges(70), vec![(0, 32), (32, 64), (64, 70)]);
}

#[test]
fn test_retry_gives_up_after_max_retries() {
    let config = test_config();
    let batcher = EmbeddingBatcher::new(EmbeddingClient::new(&config), &config);
    let mut failed = 0;
    let mut attempts = 1;
    loop {
        let (n, action) = batcher.on_failure(failed);
        failed = n;
        match action {
            RetryAction::Retry { delay_ms } => {
                assert_eq!(delay_ms, 1000);
                attempts += 1;
            }
            RetryAction::GiveUp => break,
        }
    }
    assert_eq!(attempts, 3);
    assert_eq!(failed, 3);
}

#[test]
fn test_retry_with_zero_retries_tries_once() {
    let mut config = test_config();
    config.batch.max_retries = 0;
    let batcher = EmbeddingBatcher::new(EmbeddingClient::new(&config), &config);
    let (n, action) = batcher.on_failure(0);
    assert_eq!(n, 1);
    assert!(matches!(action, RetryAction::GiveUp));
}
