//! The embedding client's configuration and the integer part of its local
//! bag-of-words embedding. Calling the embedding service and the
//! floating-point arithmetic of the embedding are left to the caller.
use vstd::prelude::*;
use vstd::utf8::encode_utf8;
use crate::config::EmbeddingConfig;
use crate::strings::{push_str, split_whitespace, string_views, words};
use crate::utils::batches::{batch_count, batch_range, batch_ranges};

verus! {

/// One step of the DJB2 hash: `h * 33 + b`, modulo 2^64.
pub open spec fn djb2_step(h: u64, b: u8) -> u64 {
    ((h as int * 33 + b as int) % 0x1_0000_0000_0000_0000int) as u64
}

/// The DJB2 hash of a byte sequence, starting from 5381.
pub open spec fn djb2(bytes: Seq<u8>) -> u64
    decreases bytes.len(),
{
    if bytes.len() == 0 {
        5381
    } else {
        djb2_step(djb2(bytes.drop_last()), bytes.last())
    }
}

/// The bucket of each word of `text` among `dimension` buckets: the hash of
/// the word's UTF-8 bytes (as a `usize`) modulo the dimension.
pub open spec fn word_buckets(text: Seq<char>, dimension: usize) -> Seq<usize> {
    words(text).map_values(|w: Seq<char>| ((djb2(encode_utf8(w)) as usize) % dimension) as usize)
}

/// Law: the local embedding has one bucket per word, each within the
/// dimension.
pub proof fn lemma_buckets_in_range(text: Seq<char>, dimension: usize)
    requires
        dimension > 0,
    ensures
        word_buckets(text, dimension).len() == words(text).len(),
        forall|i: int|
            0 <= i < word_buckets(text, dimension).len() ==> #[trigger] word_buckets(text, dimension)[i]
                < dimension,
{
}

proof fn lemma_djb2_step(h: u64, b: u8)
    ensures
        ((h << 5u64) as u64).wrapping_add(h).wrapping_add(b as u64) == djb2_step(h, b),
{
    let s = (h << 5u64) as u64;
    assert(s as int == (h as int * 32) % 0x1_0000_0000_0000_0000int) by (bit_vector)
        requires
            s == (h << 5u64) as u64,
    ;
    let m = 0x1_0000_0000_0000_0000int;
    vstd::arithmetic::div_mod::lemma_add_mod_noop_right(h as int, h as int * 32, m);
    assert(h as int + h as int * 32 == h as int * 33);
    vstd::arithmetic::div_mod::lemma_add_mod_noop_right(b as int, h as int * 33, m);
    assert(b as int + h as int * 33 == h as int * 33 + b as int);
}

/// Stateless embedding API client
/// Supports local inference via sentence-transformers models
pub struct EmbeddingClient {
    endpoint: String,
    model: String,
    dimension: usize,
    timeout_secs: u64,
    use_local: bool,
    model_path: Option<String>,
}

impl EmbeddingClient {
    pub closed spec fn endpoint_view(&self) -> Seq<char> {
        self.endpoint@
    }

    pub closed spec fn model_view(&self) -> Seq<char> {
        self.model@
    }

    pub closed spec fn dimension_view(&self) -> usize {
        self.dimension
    }

    pub closed spec fn timeout_view(&self) -> u64 {
        self.timeout_secs
    }

    pub closed spec fn local_view(&self) -> bool {
        self.use_local
    }

    pub closed spec fn model_path_view(&self) -> Option<Seq<char>> {
        match self.model_path {
            Some(p) => Some(p@),
            None => None,
        }
    }

    /// Create a new embedding client from config
    pub fn new(config: &EmbeddingConfig) -> (c: Self)
        ensures
            c.endpoint_view() == config.embedding.endpoint@,
            c.model_view() == config.embedding.model@,
            c.dimension_view() == config.embedding.dimension,
            c.timeout_view() == config.embedding.timeout_secs,
            !c.local_view(),
            c.model_path_view() is None,
    {
        EmbeddingClient {
            endpoint: config.embedding.endpoint.clone(),
            model: config.embedding.model.clone(),
            dimension: config.embedding.dimension,
            timeout_secs: config.embedding.timeout_secs,
            use_local: false,
            model_path: None,
        }
    }

    /// Create a new client for local inference
    pub fn new_local(config: &EmbeddingConfig, model_path: &str) -> (c: Self)
        ensures
            c.endpoint_view() == config.embedding.endpoint@,
            c.model_view() == config.embedding.model@,
            c.dimension_view() == config.embedding.dimension,
            c.timeout_view() == config.embedding.timeout_secs,
            c.local_view(),
            c.model_path_view() == Some(model_path@),
    {
        EmbeddingClient {
            endpoint: config.embedding.endpoint.clone(),
            model: config.embedding.model.clone(),
            dimension: config.embedding.dimension,
            timeout_secs: config.embedding.timeout_secs,
            use_local: true,
            model_path: Some(crate::strings::to_owned(model_path)),
        }
    }

    /// Simple hash function for word to index mapping (DJB2 over the word's
    /// UTF-8 bytes)
    pub fn hash_word(&self, word: &str) -> (h: u64)
        ensures
            h == djb2(encode_utf8(word@)),
    {
        let bytes = word.as_bytes();
        let mut hash: u64 = 5381;
        let mut i: usize = 0;
        assert(bytes@.take(0) =~= Seq::<u8>::empty());
        while i < bytes.len()
            invariant
                0 <= i <= bytes@.len(),
                bytes@ == encode_utf8(word@),
                hash == djb2(bytes@.take(i as int)),
            decreases bytes.len() - i,
        {
            let byte = bytes[i];
            proof {
                lemma_djb2_step(hash, byte);
                assert(bytes@.take(i + 1).drop_last() =~= bytes@.take(i as int));
            }
            hash = (hash << 5).wrapping_add(hash).wrapping_add(byte as u64);
            i += 1;
        }
        assert(bytes@.take(bytes@.len() as int) =~= bytes@);
        hash
    }

    /// The bucket of each word of `text` in the local embedding, in order;
    /// each word adds `1 / sqrt(word count)` to its bucket before the vector
    /// is normalized.
    pub fn local_buckets(&self, text: &str) -> (r: Vec<usize>)
        requires
            self.dimension_view() > 0 || words(text@).len() == 0,
        ensures
            r@ == word_buckets(text@, self.dimension_view()),
    {
        let ws = split_whitespace(text);
        let mut r: Vec<usize> = Vec::new();
        let mut i: usize = 0;
        while i < ws.len()
            invariant
                0 <= i <= ws.len(),
                string_views(ws@) == words(text@),
                self.dimension > 0 || ws@.len() == 0,
                r@ == word_buckets(text@, self.dimension).take(i as int),
            decreases ws.len() - i,
        {
            let h = self.hash_word(ws[i].as_str());
            let idx = (h as usize) % self.dimension;
            r.push(idx);
            assert(word_buckets(text@, self.dimension).take(i + 1) =~= word_buckets(
                text@,
                self.dimension,
            ).take(i as int).push(idx));
            i += 1;
        }
        assert(word_buckets(text@, self.dimension).take(i as int) =~= word_buckets(
            text@,
            self.dimension,
        ));
        r
    }

    /// Get embedding dimension
    pub fn get_dimension(&self) -> (d: usize)
        ensures
            d == self.dimension_view(),
    {
        self.dimension
    }

    /// Get model name
    pub fn get_model(&self) -> (m: &str)
        ensures
            m@ == self.model_view(),
    {
        self.model.as_str()
    }

    /// Check if using local inference
    pub fn is_local(&self) -> (b: bool)
        ensures
            b == self.local_view(),
    {
        self.use_local
    }

    /// The embedding service's base URL.
    pub fn endpoint(&self) -> (e: &str)
        ensures
            e@ == self.endpoint_view(),
    {
        self.endpoint.as_str()
    }

    /// The URL of the embedding API: `{endpoint}/embeddings`.
    pub fn embeddings_url(&self) -> (u: String)
        ensures
            u@ == self.endpoint_view() + "/embeddings"@,
    {
        let mut u = self.endpoint.clone();
        push_str(&mut u, "/embeddings");
        u
    }

    /// The request timeout in seconds.
    pub fn timeout_secs(&self) -> (t: u64)
        ensures
            t == self.timeout_view(),
    {
        self.timeout_secs
    }
}

/// What to do after an embedding attempt failed.
pub enum RetryAction {
    /// Wait this many milliseconds, then try again.
    Retry { delay_ms: u64 },
    /// Give up and report the error.
    GiveUp,
}

/// Embedding batcher with retry logic
pub struct EmbeddingBatcher {
    client: EmbeddingClient,
    batch_size: usize,
    max_retries: u32,
    retry_delay_ms: u64,
}

impl EmbeddingBatcher {
    pub closed spec fn batch_size_view(&self) -> usize {
        self.batch_size
    }

    pub closed spec fn max_retries_view(&self) -> u32 {
        self.max_retries
    }

    pub closed spec fn retry_delay_view(&self) -> u64 {
        self.retry_delay_ms
    }

    pub closed spec fn client_view(&self) -> EmbeddingClient {
        self.client
    }

    pub fn new(client: EmbeddingClient, config: &EmbeddingConfig) -> (b: Self)
        ensures
            b.client_view() == client,
            b.batch_size_view() == config.batch.size,
            b.max_retries_view() == config.batch.max_retries,
            b.retry_delay_view() == config.batch.retry_delay_ms,
    {
        EmbeddingBatcher {
            client,
            batch_size: config.batch.size,
            max_retries: config.batch.max_retries,
            retry_delay_ms: config.batch.retry_delay_ms,
        }
    }

    /// The number of texts embedded per request.
    pub fn batch_size(&self) -> (n: usize)
        ensures
            n == self.batch_size_view(),
    {
        self.batch_size
    }

    /// The client that embeds each batch.
    pub fn client(&self) -> (c: &EmbeddingClient)
        ensures
            *c == self.client_view(),
    {
        &self.client
    }

    /// The index ranges of the batches of `n` texts, in order.
    pub fn batch_ranges(&self, n: usize) -> (r: Vec<(usize, usize)>)
        requires
            self.batch_size_view() > 0,
        ensures
            r@.len() == batch_count(n as int, self.batch_size_view() as int),
            forall|i: int|
                0 <= i < r@.len() ==> (#[trigger] r@[i]).0 as int == batch_range(
                    n as int,
                    self.batch_size_view() as int,
                    i,
                ).0 && r@[i].1 as int == batch_range(n as int, self.batch_size_view() as int, i).1,
    {
        batch_ranges(n, self.batch_size)
    }

    /// The decision after an attempt failed, given how many attempts had
    /// failed before it: give up once `max_retries` attempts have failed
    /// (after the first when `max_retries` is 0), else wait and retry.
    /// Returns the new count of failed attempts with the decision.
    pub fn on_failure(&self, failed_before: u32) -> (r: (u32, RetryAction))
        requires
            failed_before < self.max_retries_view() || failed_before == 0,
        ensures
            r.0 == failed_before + 1,
            (r.0 >= self.max_retries_view()) ==> r.1 is GiveUp,
            (r.0 < self.max_retries_view()) ==> r.1 == (RetryAction::Retry {
                delay_ms: self.retry_delay_view(),
            }),
    {
        let attempt = failed_before + 1;
        if attempt >= self.max_retries {
            (attempt, RetryAction::GiveUp)
        } else {
            (attempt, RetryAction::Retry { delay_ms: self.retry_delay_ms })
        }
    }
}

/// The number of attempts made when every attempt fails: each failure is
/// followed by another attempt until `on_failure` gives up.
pub open spec fn attempts_until_give_up(max_retries: u32, failed: nat) -> nat
    decreases u32::MAX - failed,
    when failed <= u32::MAX
{
    if failed + 1 >= max_retries || failed + 1 > u32::MAX {
        failed + 1
    } else {
        attempts_until_give_up(max_retries, failed + 1)
    }
}

/// Law: when the service keeps failing, the batcher makes exactly
/// `max(1, max_retries)` attempts before giving up.
pub proof fn lemma_attempts_on_persistent_failure(max_retries: u32, failed: nat)
    requires
        failed < max_retries || failed == 0,
    ensures
        attempts_until_give_up(max_retries, failed) == if max_retries == 0 {
            1
        } else {
            max_retries as nat
        },
    decreases u32::MAX - failed,
{
    if failed + 1 >= max_retries {
    } else {
        lemma_attempts_on_persistent_failure(max_retries, failed + 1);
    }
}

} // verus!
