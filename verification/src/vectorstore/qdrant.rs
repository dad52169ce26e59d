//! The vector store's connection settings and REST endpoints. Sending the
//! requests is left to the caller.
use vstd::prelude::*;
use vstd::string::*;
use crate::config::QdrantConfig;
use crate::strings::{decimal, push_decimal, push_str};
use crate::utils::batches::{batch_count, batch_range, batch_ranges};

verus! {

/// Search infrastructure for vector storage and retrieval
pub struct QdrantStore {
    url: String,
    api_key: Option<String>,
    collection_name: String,
    vector_size: usize,
}

/// The number of points sent per insert request.
pub const INSERT_BATCH_SIZE: usize = 100;

/// The next request to send while preparing the collection, or the outcome.
pub enum CollectionStep {
    /// Send a DELETE for `url`; its status does not matter.
    Drop { url: String },
    /// Send a GET for `url` to see whether the collection exists.
    Check { url: String },
    /// Send a PUT for `url` with the JSON `body` to create the collection.
    Create { url: String, body: String },
    /// The collection is ready.
    Ready,
    /// Creating the collection failed, with this message.
    Failed { message: String },
}

/// What came back from the previous request of the collection steps.
pub enum CollectionReply {
    /// No request has been sent yet.
    Start,
    /// The collection was dropped.
    Dropped,
    /// The reply to `Check`: whether its status was a success.
    Checked { success: bool },
    /// The reply to `Create`: whether its status was a success, and its text.
    Created { success: bool, text: String },
}

/// The JSON body that creates a collection of `size`-dimensional vectors
/// compared by cosine distance, with payloads on disk.
pub open spec fn create_collection_body(size: nat) -> Seq<char> {
    "{\"vectors\":{\"size\":"@ + decimal(size)
        + ",\"distance\":\"Cosine\"},\"optimizers_config\":{\"memmap_threshold\":20000},\"on_disk_payload\":true}"@
}

impl QdrantStore {
    pub closed spec fn url_view(&self) -> Seq<char> {
        self.url@
    }

    pub closed spec fn api_key_view(&self) -> Option<Seq<char>> {
        match self.api_key {
            Some(k) => Some(k@),
            None => None,
        }
    }

    pub closed spec fn collection_view(&self) -> Seq<char> {
        self.collection_name@
    }

    pub closed spec fn vector_size_view(&self) -> usize {
        self.vector_size
    }

    /// `{url}/collections/{name}`
    pub open spec fn collection_url_view(&self) -> Seq<char> {
        self.url_view() + "/collections/"@ + self.collection_view()
    }

    /// Create a new Qdrant store configuration; an empty API key means none.
    pub fn new(config: &QdrantConfig) -> (s: Self)
        ensures
            s.url_view() == config.qdrant.url@,
            s.api_key_view() == (if config.qdrant.api_key@.len() == 0 {
                None
            } else {
                Some(config.qdrant.api_key@)
            }),
            s.collection_view() == config.collection.name@,
            s.vector_size_view() == config.collection.vector_size,
    {
        QdrantStore {
            url: config.qdrant.url.clone(),
            api_key: if config.qdrant.api_key.as_str().is_empty() {
                None
            } else {
                Some(config.qdrant.api_key.clone())
            },
            collection_name: config.collection.name.clone(),
            vector_size: config.collection.vector_size,
        }
    }

    pub fn api_key(&self) -> (k: Option<&str>)
        ensures
            match k {
                Some(s) => self.api_key_view() == Some(s@),
                None => self.api_key_view() is None,
            },
    {
        match &self.api_key {
            Some(k) => Some(k.as_str()),
            None => None,
        }
    }

    pub fn collection_name(&self) -> (n: &str)
        ensures
            n@ == self.collection_view(),
    {
        self.collection_name.as_str()
    }

    pub fn vector_size(&self) -> (n: usize)
        ensures
            n == self.vector_size_view(),
    {
        self.vector_size
    }

    /// The collection's URL.
    pub fn collection_url(&self) -> (u: String)
        ensures
            u@ == self.collection_url_view(),
    {
        let mut u = self.url.clone();
        push_str(&mut u, "/collections/");
        push_str(&mut u, self.collection_name.as_str());
        u
    }

    /// The URL for inserting points.
    pub fn points_url(&self) -> (u: String)
        ensures
            u@ == self.collection_url_view() + "/points"@,
    {
        let mut u = self.collection_url();
        push_str(&mut u, "/points");
        u
    }

    /// The URL for searching points.
    pub fn search_url(&self) -> (u: String)
        ensures
            u@ == self.collection_url_view() + "/points/search"@,
    {
        let mut u = self.collection_url();
        push_str(&mut u, "/points/search");
        u
    }

    /// The URL for deleting points.
    pub fn delete_url(&self) -> (u: String)
        ensures
            u@ == self.collection_url_view() + "/points/delete"@,
    {
        let mut u = self.collection_url();
        push_str(&mut u, "/points/delete");
        u
    }

    /// The JSON body of the request that creates the collection.
    pub fn create_body(&self) -> (b: String)
        ensures
            b@ == create_collection_body(self.vector_size_view() as nat),
    {
        let mut b = String::from_str("{\"vectors\":{\"size\":");
        push_decimal(&mut b, self.vector_size);
        push_str(
            &mut b,
            ",\"distance\":\"Cosine\"},\"optimizers_config\":{\"memmap_threshold\":20000},\"on_disk_payload\":true}",
        );
        proof {
            reveal_strlit("{\"vectors\":{\"size\":");
        }
        b
    }

    /// The step that follows `reply` while making sure the collection exists.
    pub open spec fn is_ensure_step(&self, reply: CollectionReply, s: CollectionStep) -> bool {
        match reply {
            CollectionReply::Start | CollectionReply::Dropped => s matches CollectionStep::Check { url }
                && url@ == self.collection_url_view(),
            CollectionReply::Checked { success } => if success {
                s is Ready
            } else {
                s matches CollectionStep::Create { url, body } && url@ == self.collection_url_view()
                    && body@ == create_collection_body(self.vector_size_view() as nat)
            },
            CollectionReply::Created { success, text } => if success {
                s is Ready
            } else {
                s matches CollectionStep::Failed { message } && message@
                    == "Failed to create collection: "@ + text@
            },
        }
    }

    /// Making sure the collection exists: check for it, create it when the
    /// check fails, and report whether creating it failed.
    pub fn ensure_collection_step(&self, reply: &CollectionReply) -> (s: CollectionStep)
        ensures
            self.is_ensure_step(*reply, s),
    {
        match reply {
            CollectionReply::Start | CollectionReply::Dropped => CollectionStep::Check {
                url: self.collection_url(),
            },
            CollectionReply::Checked { success } => if *success {
                CollectionStep::Ready
            } else {
                CollectionStep::Create { url: self.collection_url(), body: self.create_body() }
            },
            CollectionReply::Created { success, text } => if *success {
                CollectionStep::Ready
            } else {
                let mut m = String::from_str("Failed to create collection: ");
                push_str(&mut m, text.as_str());
                proof {
                    reveal_strlit("Failed to create collection: ");
                }
                CollectionStep::Failed { message: m }
            },
        }
    }

    /// Recreating the collection: drop it, then make sure it exists.
    pub fn recreate_collection_step(&self, reply: &CollectionReply) -> (s: CollectionStep)
        ensures
            match *reply {
                CollectionReply::Start => s matches CollectionStep::Drop { url } && url@
                    == self.collection_url_view(),
                _ => self.is_ensure_step(*reply, s),
            },
    {
        match reply {
            CollectionReply::Start => CollectionStep::Drop { url: self.collection_url() },
            _ => self.ensure_collection_step(reply),
        }
    }

    /// The index ranges of the insert requests for `n` points: batches of
    /// 100, in order.
    pub fn insert_batches(&self, n: usize) -> (r: Vec<(usize, usize)>)
        ensures
            r@.len() == batch_count(n as int, 100),
            forall|i: int|
                0 <= i < r@.len() ==> (#[trigger] r@[i]).0 as int == batch_range(n as int, 100, i).0
                    && r@[i].1 as int == batch_range(n as int, 100, i).1,
    {
        batch_ranges(n, INSERT_BATCH_SIZE)
    }
}

} // verus!
