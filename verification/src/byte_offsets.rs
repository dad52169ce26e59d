//! Correspondence between byte offsets into UTF-8 text and character indices.
use vstd::prelude::*;
use vstd::utf8::*;

verus! {

broadcast use vstd::utf8::encode_utf8_valid_utf8;

/// The number of bytes of the UTF-8 encoding of `s` (what `str::len` counts).
pub open spec fn byte_len(s: Seq<char>) -> nat {
    encode_utf8(s).len()
}

/// The character index in `s` at which byte offset `b` falls, for an offset
/// that lies on a character boundary.
pub open spec fn char_index_at_byte(s: Seq<char>, b: int) -> int {
    choose|k: int| 0 <= k <= s.len() && byte_len(s.take(k)) == b
}

pub proof fn lemma_encode_concat(a: Seq<char>, b: Seq<char>)
    ensures
        encode_utf8(a + b) == encode_utf8(a) + encode_utf8(b),
    decreases a.len(),
{
    if a.len() == 0 {
        assert(a + b =~= b);
        assert(encode_utf8(a) =~= Seq::<u8>::empty());
        assert(encode_utf8(a) + encode_utf8(b) =~= encode_utf8(b));
    } else {
        assert((a + b).drop_first() =~= a.drop_first() + b);
        assert((a + b)[0] == a[0]);
        lemma_encode_concat(a.drop_first(), b);
        assert(encode_utf8(a + b) =~= encode_utf8(a) + encode_utf8(b));
    }
}

pub proof fn lemma_scalar_len(c: char)
    ensures
        1 <= encode_scalar(c as u32).len() <= 4,
{
    char_is_scalar(c);
}

pub proof fn lemma_encode_single(c: char)
    ensures
        encode_utf8(seq![c]) == encode_scalar(c as u32),
{
    assert(seq![c].drop_first() =~= Seq::<char>::empty());
    assert(encode_utf8(Seq::<char>::empty()) =~= Seq::<u8>::empty());
    assert(encode_utf8(seq![c]) =~= encode_scalar(c as u32));
}

pub proof fn lemma_take_succ(s: Seq<char>, k: int)
    requires
        0 <= k < s.len(),
    ensures
        encode_utf8(s.take(k + 1)) == encode_utf8(s.take(k)) + encode_scalar(s[k] as u32),
        byte_len(s.take(k + 1)) == byte_len(s.take(k)) + encode_scalar(s[k] as u32).len(),
{
    assert(s.take(k + 1) =~= s.take(k) + seq![s[k]]);
    lemma_encode_concat(s.take(k), seq![s[k]]);
    lemma_encode_single(s[k]);
}

/// Longer prefixes have strictly longer encodings.
pub proof fn lemma_byte_len_mono(s: Seq<char>, i: int, j: int)
    requires
        0 <= i <= j <= s.len(),
    ensures
        byte_len(s.take(i)) + (j - i) <= byte_len(s.take(j)),
    decreases j - i,
{
    if i < j {
        lemma_byte_len_mono(s, i, j - 1);
        lemma_take_succ(s, j - 1);
        lemma_scalar_len(s[j - 1]);
    }
}

/// Every character boundary of the encoding of `s` is the end of the
/// encoding of some prefix of `s`.
pub proof fn lemma_boundary_has_prefix(s: Seq<char>, b: int)
    requires
        is_char_boundary(encode_utf8(s), b),
    ensures
        exists|k: int| 0 <= k <= s.len() && byte_len(s.take(k)) == b,
    decreases s.len(),
{
    let bytes = encode_utf8(s);
    if b == 0 {
        assert(s.take(0) =~= Seq::<char>::empty());
        assert(byte_len(s.take(0)) == 0);
    } else {
        assert(s.len() > 0) by {
            if s.len() == 0 {
                assert(bytes.len() == 0);
            }
        }
        encode_utf8_first_scalar(s);
        let l = length_of_first_scalar(bytes);
        assert(bytes =~= encode_scalar(s[0] as u32) + encode_utf8(s.drop_first()));
        assert(pop_first_scalar(bytes) =~= encode_utf8(s.drop_first()));
        assert(is_char_boundary(encode_utf8(s.drop_first()), b - l));
        lemma_boundary_has_prefix(s.drop_first(), b - l);
        let k = choose|k: int|
            0 <= k <= s.drop_first().len() && byte_len(s.drop_first().take(k)) == b - l;
        assert(s.take(k + 1) =~= seq![s[0]] + s.drop_first().take(k));
        lemma_encode_concat(seq![s[0]], s.drop_first().take(k));
        lemma_encode_single(s[0]);
        assert(byte_len(s.take(k + 1)) == b);
    }
}

/// At a character boundary, `char_index_at_byte` is the unique prefix length
/// whose encoding ends there.
pub proof fn lemma_char_index_at_byte(s: Seq<char>, b: int, k: int)
    requires
        0 <= k <= s.len(),
        byte_len(s.take(k)) == b,
    ensures
        char_index_at_byte(s, b) == k,
{
    let k2 = char_index_at_byte(s, b);
    assert(0 <= k2 <= s.len() && byte_len(s.take(k2)) == b);
    if k2 < k {
        lemma_byte_len_mono(s, k2, k);
    } else if k < k2 {
        lemma_byte_len_mono(s, k, k2);
    }
}

/// The number of bytes of the UTF-8 encoding of `c` (`char::len_utf8`).
pub fn char_len_utf8(c: char) -> (n: usize)
    ensures
        n == encode_scalar(c as u32).len(),
{
    if (c as u32) < 0x80 {
        1
    } else if (c as u32) < 0x800 {
        2
    } else if (c as u32) < 0x10000 {
        proof {
            char_is_scalar(c);
        }
        3
    } else {
        proof {
            char_is_scalar(c);
        }
        4
    }
}

/// Converts nondecreasing byte offsets, each on a character boundary of the
/// encoding of `v`, to the corresponding character indices.
pub fn char_indices_at_bytes(v: &Vec<char>, offsets: &Vec<usize>) -> (r: Vec<usize>)
    requires
        forall|i: int| 0 <= i < offsets.len() ==> is_char_boundary(encode_utf8(v@), #[trigger] offsets@[i] as int),
        forall|i: int, j: int| 0 <= i <= j < offsets.len() ==> offsets@[i] <= offsets@[j],
    ensures
        r@.len() == offsets@.len(),
        forall|i: int|
            0 <= i < r@.len() ==> r@[i] <= v@.len() && byte_len(v@.take(#[trigger] r@[i] as int))
                == offsets@[i] && r@[i] == char_index_at_byte(v@, offsets@[i] as int),
{
    let mut r: Vec<usize> = Vec::new();
    let mut i: usize = 0;
    let mut pos: usize = 0;
    assert(v@.take(0) =~= Seq::<char>::empty());
    while r.len() < offsets.len()
        invariant
            forall|m: int| 0 <= m < offsets.len() ==> is_char_boundary(encode_utf8(v@), #[trigger] offsets@[m] as int),
            forall|m: int, n: int| 0 <= m <= n < offsets.len() ==> offsets@[m] <= offsets@[n],
            r@.len() <= offsets@.len(),
            i <= v@.len(),
            pos == byte_len(v@.take(i as int)),
            r@.len() > 0 ==> pos == offsets@[r@.len() - 1] && i == r@[r@.len() - 1],
            r@.len() == 0 ==> i == 0,
            forall|m: int|
                0 <= m < r@.len() ==> r@[m] <= v@.len() && byte_len(v@.take(#[trigger] r@[m] as int))
                    == offsets@[m] && r@[m] == char_index_at_byte(v@, offsets@[m] as int),
        decreases offsets.len() - r.len(),
    {
        let b = offsets[r.len()];
        proof {
            lemma_boundary_has_prefix(v@, b as int);
        }
        let ghost k = choose|k: int| 0 <= k <= v@.len() && byte_len(v@.take(k)) == b;
        proof {
            if r@.len() > 0 {
                assert(offsets@[r@.len() - 1] <= offsets@[r@.len() as int]);
            } else {
                assert(pos == 0);
            }
            assert(pos <= b);
            if k < i {
                lemma_byte_len_mono(v@, k, i as int);
            }
        }
        while pos < b
            invariant
                i <= k <= v@.len(),
                k <= v.len(),
                byte_len(v@.take(k)) == b,
                pos == byte_len(v@.take(i as int)),
                pos <= b,
            decreases k - i,
        {
            proof {
                if i == k {
                    assert(false);
                }
                lemma_take_succ(v@, i as int);
                lemma_byte_len_mono(v@, i + 1, k);
            }
            pos = pos + char_len_utf8(v[i]);
            i = i + 1;
        }
        proof {
            if i < k {
                lemma_byte_len_mono(v@, i as int, k);
            }
            lemma_char_index_at_byte(v@, b as int, i as int);
        }
        r.push(i);
    }
    r
}

/// The number of bytes of the UTF-8 encoding of `s` (`str::len`).
pub fn byte_length(s: &str) -> (n: usize)
    ensures
        n == byte_len(s@),
{
    s.as_bytes().len()
}

} // verus!
