//! Query-time retrieval: how many candidates to ask the vector store for, and
//! which of them to keep, in which order. Embedding the query and searching
//! are remote calls made by the caller, which hands each candidate's score
//! here as an order-preserving integer key.
use vstd::prelude::*;
use crate::embedding::client::EmbeddingClient;
use crate::vectorstore::qdrant::QdrantStore;

verus! {

/// Query-time retriever for RAG
pub struct Retriever {
    embedding_client: EmbeddingClient,
    vectorstore: QdrantStore,
}

/// Candidate `a` comes before candidate `b` when candidates are sorted by
/// descending score, ties kept in the order the search returned them (a stable sort).
pub open spec fn ranks_before(keys: Seq<u32>, a: int, b: int) -> bool {
    keys[a] > keys[b] || (keys[a] == keys[b] && a < b)
}

/// `order` is the first `len` candidates of the stable descending sort of
/// `keys`: indices of candidates, each ranked before the next, and every
/// candidate left out ranked after every one kept.
pub open spec fn is_top_order(keys: Seq<u32>, order: Seq<usize>, len: int) -> bool {
    &&& order.len() == len
    &&& forall|i: int| 0 <= i < order.len() ==> (#[trigger] order[i]) < keys.len()
    &&& forall|i: int, j: int|
        0 <= i < j < order.len() ==> ranks_before(keys, #[trigger] order[i] as int, #[trigger] order[j] as int)
    &&& forall|i: int, j: usize|
        #![trigger order[i], order.contains(j)]
        0 <= i < order.len() && j < keys.len() && !order.contains(j) ==> ranks_before(
            keys,
            order[i] as int,
            j as int,
        )
}

/// The positions of `keys` whose key is at least `min_key`, in order.
pub open spec fn positions_at_least(keys: Seq<u32>, min_key: u32) -> Seq<usize>
    decreases keys.len(),
{
    if keys.len() == 0 {
        seq![]
    } else {
        let prev = positions_at_least(keys.drop_last(), min_key);
        if keys.last() >= min_key {
            prev.push((keys.len() - 1) as usize)
        } else {
            prev
        }
    }
}

pub open spec fn min_len(a: int, b: int) -> int {
    if a < b {
        a
    } else {
        b
    }
}

impl Retriever {
    pub closed spec fn client_view(&self) -> EmbeddingClient {
        self.embedding_client
    }

    pub closed spec fn store_view(&self) -> QdrantStore {
        self.vectorstore
    }

    pub fn new(embedding_client: EmbeddingClient, vectorstore: QdrantStore) -> (r: Self)
        ensures
            r.client_view() == embedding_client,
            r.store_view() == vectorstore,
    {
        Retriever { embedding_client, vectorstore }
    }

    /// The client that embeds queries.
    pub fn embedding_client(&self) -> (c: &EmbeddingClient)
        ensures
            *c == self.client_view(),
    {
        &self.embedding_client
    }

    /// The store that is searched.
    pub fn vectorstore(&self) -> (s: &QdrantStore)
        ensures
            *s == self.store_view(),
    {
        &self.vectorstore
    }

    /// The number of candidates to search for when `top_k` chunks are wanted:
    /// four times as many, for re-ranking.
    pub fn candidate_count(top_k: usize) -> (n: usize)
        requires
            top_k * 4 <= usize::MAX,
        ensures
            n == top_k * 4,
    {
        top_k * 4
    }

    /// The number of ranked chunks to filter by a minimum score when `top_k`
    /// are wanted: twice as many.
    pub fn threshold_pool(top_k: usize) -> (n: usize)
        requires
            top_k * 2 <= usize::MAX,
        ensures
            n == top_k * 2,
    {
        top_k * 2
    }

    /// Re-rank candidates by score: the indices of the `top_k` best candidates
    /// (all of them when fewer) by descending score key, ties in their
    /// search order.
    pub fn rank_candidates(keys: &Vec<u32>, top_k: usize) -> (r: Vec<usize>)
        ensures
            is_top_order(keys@, r@, min_len(top_k as int, keys@.len() as int)),
    {
        let n = keys.len();
        let mut idx: Vec<usize> = Vec::new();
        let mut k: usize = 0;
        while k < n
            invariant
                k <= n,
                n == keys@.len(),
                idx@.len() == k,
                forall|p: int| 0 <= p < k ==> idx@[p] == p,
            decreases n - k,
        {
            idx.push(k);
            k += 1;
        }
        let ghost mut pos: Seq<int> = Seq::new(n as nat, |p: int| p);
        let want = if top_k < n {
            top_k
        } else {
            n
        };
        let mut t: usize = 0;
        while t < want
            invariant
                want <= n,
                n == keys@.len(),
                t <= want,
                idx@.len() == n,
                pos.len() == n,
                forall|p: int| 0 <= p < n ==> (#[trigger] idx@[p]) < n,
                forall|p: int, q: int|
                    0 <= p < n && 0 <= q < n && p != q ==> #[trigger] idx@[p] != #[trigger] idx@[q],
                forall|v: int| 0 <= v < n ==> 0 <= #[trigger] pos[v] < n && idx@[pos[v]] == v,
                forall|i: int, j: int|
                    0 <= i < j < t ==> ranks_before(keys@, #[trigger] idx@[i] as int, #[trigger] idx@[j] as int),
                forall|i: int, p: int|
                    0 <= i < t <= p < n ==> ranks_before(keys@, #[trigger] idx@[i] as int, #[trigger] idx@[p] as int),
            decreases want - t,
        {
            let mut b: usize = t;
            let mut q: usize = t + 1;
            while q < n
                invariant
                    t < n,
                    t <= b < q <= n,
                    n == keys@.len(),
                    idx@.len() == n,
                    forall|p: int| 0 <= p < n ==> (#[trigger] idx@[p]) < n,
                    forall|p: int, q2: int|
                        0 <= p < n && 0 <= q2 < n && p != q2 ==> #[trigger] idx@[p] != #[trigger] idx@[q2],
                    forall|p: int|
                        t <= p < q && p != b ==> ranks_before(keys@, idx@[b as int] as int, #[trigger] idx@[p] as int),
                decreases n - q,
            {
                let kq = keys[idx[q]];
                let kb = keys[idx[b]];
                if kq > kb || (kq == kb && idx[q] < idx[b]) {
                    b = q;
                }
                q += 1;
            }
            let ghost old_idx = idx@;
            let a = idx[t];
            let c = idx[b];
            idx[t] = c;
            idx[b] = a;
            proof {
                assert(idx@ == old_idx.update(t as int, c).update(b as int, a));
                let old_pos = pos;
                pos = pos.update(a as int, b as int).update(c as int, t as int);
                assert forall|p: int, q2: int|
                    0 <= p < n && 0 <= q2 < n && p != q2 implies #[trigger] idx@[p] != #[trigger] idx@[q2] by {
                    let op = if p == t {
                        b as int
                    } else if p == b {
                        t as int
                    } else {
                        p
                    };
                    let oq = if q2 == t {
                        b as int
                    } else if q2 == b {
                        t as int
                    } else {
                        q2
                    };
                    assert(idx@[p] == old_idx[op]);
                    assert(idx@[q2] == old_idx[oq]);
                }
                assert forall|v: int| 0 <= v < n implies 0 <= #[trigger] pos[v] < n && idx@[pos[v]] == v by {
                    if v != a && v != c {
                        assert(pos[v] == old_pos[v]);
                        assert(old_idx[old_pos[v]] == v);
                    }
                }
                assert forall|i: int, p: int|
                    0 <= i < t + 1 <= p < n implies ranks_before(keys@, #[trigger] idx@[i] as int, #[trigger] idx@[p] as int) by {
                    if i < t {
                        if p == b {
                            assert(idx@[p] == old_idx[t as int]);
                        } else {
                            assert(idx@[p] == old_idx[p]);
                        }
                    } else {
                        if p == b {
                            assert(idx@[p] == old_idx[t as int]);
                            assert(t != b);
                        } else {
                            assert(idx@[p] == old_idx[p]);
                        }
                    }
                }
            }
            t += 1;
        }
        let ghost full = idx@;
        idx.truncate(want);
        proof {
            assert forall|i: int, j: usize|
                0 <= i < idx@.len() && j < n && !idx@.contains(j) implies ranks_before(
                keys@,
                idx@[i] as int,
                j as int,
            ) by {
                let p = pos[j as int];
                if p < want {
                    assert(idx@[p] == j);
                }
                assert(full[p] == j);
                assert(idx@[i] == full[i]);
            }
        }
        idx
    }

    /// The positions, in order, of the first `top_k` ranked chunks whose score
    /// key (`keys`, in rank order) is at least `min_key`.
    pub fn keep_at_least(keys: &Vec<u32>, min_key: u32, top_k: usize) -> (r: Vec<usize>)
        ensures
            r@ == positions_at_least(keys@, min_key).take(
                min_len(top_k as int, positions_at_least(keys@, min_key).len() as int),
            ),
    {
        let mut r: Vec<usize> = Vec::new();
        let mut i: usize = 0;
        assert(keys@.take(0) =~= Seq::<u32>::empty());
        while i < keys.len()
            invariant
                0 <= i <= keys@.len(),
                r@ == positions_at_least(keys@.take(i as int), min_key).take(
                    min_len(top_k as int, positions_at_least(keys@.take(i as int), min_key).len() as int),
                ),
            decreases keys.len() - i,
        {
            let ghost before = positions_at_least(keys@.take(i as int), min_key);
            assert(keys@.take(i + 1).drop_last() =~= keys@.take(i as int));
            assert(keys@.take(i + 1).last() == keys@[i as int]);
            if keys[i] >= min_key {
                if r.len() < top_k {
                    r.push(i);
                }
                assert(r@ =~= before.push(i).take(min_len(top_k as int, before.len() + 1int)));
            }
            i += 1;
        }
        assert(keys@.take(keys.len() as int) =~= keys@);
        r
    }
}

} // verus!
