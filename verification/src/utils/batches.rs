//! Splitting a sequence into consecutive batches.
use vstd::prelude::*;

verus! {

/// The `i`-th batch of `n` items in batches of `size`: `[i*size, min((i+1)*size, n))`.
pub open spec fn batch_range(n: int, size: int, i: int) -> (int, int) {
    (i * size, if (i + 1) * size < n {
        (i + 1) * size
    } else {
        n
    })
}

/// The number of batches: `ceil(n / size)`.
pub open spec fn batch_count(n: int, size: int) -> int {
    (n + size - 1) / size
}

/// The index ranges of the batches of `n` items (what `slice::chunks(size)`
/// yields): consecutive, each of `size` items but the last, covering `0..n`.
pub fn batch_ranges(n: usize, size: usize) -> (r: Vec<(usize, usize)>)
    requires
        size > 0,
    ensures
        r@.len() == batch_count(n as int, size as int),
        forall|i: int|
            0 <= i < r@.len() ==> (#[trigger] r@[i]).0 as int == batch_range(n as int, size as int, i).0
                && r@[i].1 as int == batch_range(n as int, size as int, i).1,
{
    let mut r: Vec<(usize, usize)> = Vec::new();
    let mut start: usize = 0;
    assert(r@.len() * size == 0) by (nonlinear_arith)
        requires
            r@.len() == 0,
    ;
    if n == 0 {
        assert(batch_count(0, size as int) == 0) by (nonlinear_arith)
            requires
                size > 0,
        ;
    }
    while start < n
        invariant
            size > 0,
            start <= n,
            start < n ==> start as int == r@.len() * size,
            forall|i: int|
                0 <= i < r@.len() ==> (#[trigger] r@[i]).0 as int == batch_range(
                    n as int,
                    size as int,
                    i,
                ).0 && r@[i].1 as int == batch_range(n as int, size as int, i).1,
            start == n ==> r@.len() == batch_count(n as int, size as int),
            start < n ==> r@.len() * size < n,
        decreases n - start,
    {
        let k = r.len();
        let end = if n - start > size {
            start + size
        } else {
            n
        };
        assert((k + 1) * size == k * size + size) by (nonlinear_arith);
        r.push((start, end));
        proof {
            if end == n {
                assert(batch_count(n as int, size as int) == k + 1) by (nonlinear_arith)
                    requires
                        k * size < n,
                        n <= k * size + size,
                        size > 0,
                ;
            }
        }
        start = end;
    }
    r
}

} // verus!
