//! Regular-expression matching through the `regex` crate.
//!
//! What a regex matches is named, not restated: `regex_compiles`,
//! `regex_match_spans` and `regex_replace` stand for what `Regex::new`,
//! `Regex::find_iter` and `Regex::replace_all` return.
use vstd::prelude::*;
use vstd::utf8::*;
use crate::byte_offsets::{byte_len, char_index_at_byte, char_indices_at_bytes, lemma_byte_len_mono};

verus! {

#[verifier::external_type_specification]
#[verifier::external_body]
pub struct ExRegex(regex::Regex);

/// Whether `regex::Regex::new` accepts the pattern.
pub uninterp spec fn regex_compiles(pattern: Seq<char>) -> bool;

/// The byte spans `(start, end)` of the successive non-overlapping matches
/// that `Regex::find_iter` yields for the pattern on the haystack.
pub uninterp spec fn regex_match_spans(pattern: Seq<char>, haystack: Seq<char>) -> Seq<(int, int)>;

/// What `Regex::replace_all` returns for the pattern, haystack and
/// replacement string (in which `$name` refers to capture groups).
pub uninterp spec fn regex_replace(pattern: Seq<char>, haystack: Seq<char>, replacement: Seq<
    char,
>) -> Seq<char>;

/// A compiled regex together with the pattern it was compiled from.
/// Values of this type are only built by `compile`.
pub struct Compiled {
    source: String,
    regex: regex::Regex,
}

impl Compiled {
    pub closed spec fn source(&self) -> Seq<char> {
        self.source@
    }
}

/// Calls `regex::Regex::new(source)`; the result is present exactly when the
/// pattern compiles, and keeps the pattern text beside the compiled regex.
#[verifier::external_body]
fn compile(source: &str) -> (r: Option<Compiled>)
    ensures
        r is Some <==> regex_compiles(source@),
        r matches Some(c) ==> c.source() == source@,
{
    match regex::Regex::new(source) {
        Ok(regex) => Some(Compiled { source: source.to_string(), regex }),
        Err(_) => None,
    }
}

/// Calls `Regex::find_iter` and returns the byte span of each match. The
/// regex documentation guarantees that `start <= end`, that both offsets lie
/// on character boundaries of the haystack, and that the matches are
/// successive and non-overlapping.
#[verifier::external_body]
fn find_spans(c: &Compiled, haystack: &str) -> (r: Vec<(usize, usize)>)
    ensures
        r@.len() == regex_match_spans(c.source(), haystack@).len(),
        forall|i: int|
            0 <= i < r@.len() ==> (#[trigger] r@[i]).0 as int == regex_match_spans(
                c.source(),
                haystack@,
            )[i].0 && r@[i].1 as int == regex_match_spans(c.source(), haystack@)[i].1,
        forall|i: int|
            0 <= i < r@.len() ==> (#[trigger] r@[i]).0 <= r@[i].1 <= encode_utf8(haystack@).len()
                && is_char_boundary(encode_utf8(haystack@), r@[i].0 as int) && is_char_boundary(
                encode_utf8(haystack@),
                r@[i].1 as int,
            ),
        forall|i: int| 0 <= i < r@.len() - 1 ==> (#[trigger] r@[i]).1 <= r@[i + 1].0,
{
    c.regex.find_iter(haystack).map(|m| (m.start(), m.end())).collect()
}

/// Calls `Regex::replace_all` with a string replacement.
#[verifier::external_body]
fn replace_all(c: &Compiled, haystack: &str, replacement: &str) -> (r: String)
    ensures
        r@ == regex_replace(c.source(), haystack@, replacement@),
{
    c.regex.replace_all(haystack, replacement).into_owned()
}

/// The byte spans of the matches of `pattern` in `haystack`; none when the
/// pattern does not compile.
pub open spec fn match_spans(pattern: Seq<char>, haystack: Seq<char>) -> Seq<(int, int)> {
    if regex_compiles(pattern) {
        regex_match_spans(pattern, haystack)
    } else {
        seq![]
    }
}

/// The character-index spans of the matches of `pattern` in `haystack`.
pub open spec fn match_char_spans(pattern: Seq<char>, haystack: Seq<char>) -> Seq<(int, int)> {
    match_spans(pattern, haystack).map_values(
        |sp: (int, int)|
            (char_index_at_byte(haystack, sp.0), char_index_at_byte(haystack, sp.1)),
    )
}

/// The matched texts of `pattern` in `haystack`, in order.
pub open spec fn match_texts(pattern: Seq<char>, haystack: Seq<char>) -> Seq<Seq<char>> {
    match_char_spans(pattern, haystack).map_values(
        |sp: (int, int)| haystack.subrange(sp.0, sp.1),
    )
}

/// `haystack` with every match of `pattern` replaced; unchanged when the
/// pattern does not compile.
pub open spec fn replace_matches(pattern: Seq<char>, haystack: Seq<char>, replacement: Seq<char>) -> Seq<
    char,
> {
    if regex_compiles(pattern) {
        regex_replace(pattern, haystack, replacement)
    } else {
        haystack
    }
}

/// A pattern, compiled when it is a valid regex.
pub struct Matcher {
    source: Ghost<Seq<char>>,
    compiled: Option<Compiled>,
}

impl Matcher {
    pub closed spec fn source(&self) -> Seq<char> {
        self.source@
    }

    #[verifier::type_invariant]
    closed spec fn inv(&self) -> bool {
        &&& (self.compiled is Some <==> regex_compiles(self.source@))
        &&& (self.compiled matches Some(c) ==> c.source() == self.source@)
    }

    /// Compiles `pattern`.
    pub fn new(pattern: &str) -> (m: Matcher)
        ensures
            m.source() == pattern@,
    {
        Matcher { source: Ghost(pattern@), compiled: compile(pattern) }
    }

    /// The byte spans of the matches, in order.
    pub fn find_byte_spans(&self, haystack: &str) -> (r: Vec<(usize, usize)>)
        ensures
            r@.len() == match_spans(self.source(), haystack@).len(),
            forall|i: int|
                0 <= i < r@.len() ==> (#[trigger] r@[i]).0 as int == match_spans(
                    self.source(),
                    haystack@,
                )[i].0 && r@[i].1 as int == match_spans(self.source(), haystack@)[i].1,
            forall|i: int|
                0 <= i < r@.len() ==> (#[trigger] r@[i]).0 <= r@[i].1 <= encode_utf8(
                    haystack@,
                ).len() && is_char_boundary(encode_utf8(haystack@), r@[i].0 as int)
                    && is_char_boundary(encode_utf8(haystack@), r@[i].1 as int),
            forall|i: int| 0 <= i < r@.len() - 1 ==> (#[trigger] r@[i]).1 <= r@[i + 1].0,
    {
        proof {
            use_type_invariant(self);
        }
        match &self.compiled {
            Some(c) => find_spans(c, haystack),
            None => Vec::new(),
        }
    }

    /// The character-index spans of the matches, in order.
    pub fn find_char_spans(&self, hay: &Vec<char>, haystack: &str) -> (r: Vec<(usize, usize)>)
        requires
            hay@ == haystack@,
        ensures
            r@.len() == match_char_spans(self.source(), haystack@).len(),
            forall|i: int|
                0 <= i < r@.len() ==> (#[trigger] r@[i]).0 as int == match_char_spans(
                    self.source(),
                    haystack@,
                )[i].0 && r@[i].1 as int == match_char_spans(self.source(), haystack@)[i].1
                    && r@[i].0 <= r@[i].1 <= hay@.len(),
            forall|i: int| 0 <= i < r@.len() - 1 ==> (#[trigger] r@[i]).1 <= r@[i + 1].0,
    {
        let spans = self.find_byte_spans(haystack);
        let mut offsets: Vec<usize> = Vec::new();
        let mut i: usize = 0;
        while i < spans.len()
            invariant
                0 <= i <= spans.len(),
                offsets@.len() == 2 * i,
                forall|j: int|
                    0 <= j < i ==> offsets@[2 * j] == (#[trigger] spans@[j]).0 && offsets@[2 * j
                        + 1] == spans@[j].1,
            decreases spans.len() - i,
        {
            offsets.push(spans[i].0);
            offsets.push(spans[i].1);
            i += 1;
        }
        proof {
            assert forall|m: int| 0 <= m < offsets.len() implies is_char_boundary(
                encode_utf8(hay@),
                #[trigger] offsets@[m] as int,
            ) by {
                let j = m / 2;
                assert(spans@[j].0 == offsets@[2 * j]);
                assert(m == 2 * j || m == 2 * j + 1);
            }
            assert forall|m: int, n: int| 0 <= m <= n < offsets.len() implies offsets@[m]
                <= offsets@[n] by {
                lemma_offsets_sorted(spans@, offsets@, m, n);
            }
        }
        let idx = char_indices_at_bytes(hay, &offsets);
        let mut r: Vec<(usize, usize)> = Vec::new();
        let mut j: usize = 0;
        let n2 = idx.len();
        while j < spans.len()
            invariant
                0 <= j <= spans.len(),
                n2 == idx@.len(),
                idx@.len() == 2 * spans@.len(),
                offsets@.len() == 2 * spans@.len(),
                r@.len() == j,
                forall|m: int|
                    0 <= m < spans@.len() ==> offsets@[2 * m] == (#[trigger] spans@[m]).0
                        && offsets@[2 * m + 1] == spans@[m].1,
                forall|m: int|
                    0 <= m < idx@.len() ==> idx@[m] <= hay@.len() && byte_len(
                        hay@.take(#[trigger] idx@[m] as int),
                    ) == offsets@[m] && idx@[m] == char_index_at_byte(hay@, offsets@[m] as int),
                forall|m: int|
                    0 <= m < j ==> (#[trigger] r@[m]).0 == idx@[2 * m] && r@[m].1 == idx@[2 * m
                        + 1],
            decreases spans.len() - j,
        {
            r.push((idx[2 * j], idx[2 * j + 1]));
            j += 1;
        }
        proof {
            assert forall|m: int| 0 <= m < r@.len() implies (#[trigger] r@[m]).0 as int
                == match_char_spans(self.source(), haystack@)[m].0 && r@[m].1 as int
                == match_char_spans(self.source(), haystack@)[m].1 && r@[m].0 <= r@[m].1
                <= hay@.len() by {
                assert(spans@[m].0 as int == match_spans(self.source(), haystack@)[m].0);
                assert(spans@[m].1 as int == match_spans(self.source(), haystack@)[m].1);
                assert(idx@[2 * m] == char_index_at_byte(hay@, offsets@[2 * m] as int));
                assert(idx@[2 * m + 1] == char_index_at_byte(hay@, offsets@[2 * m + 1] as int));
                let a = idx@[2 * m] as int;
                let b = idx@[2 * m + 1] as int;
                if b < a {
                    lemma_byte_len_mono(hay@, b, a);
                }
            }
            assert forall|m: int| 0 <= m < r@.len() - 1 implies (#[trigger] r@[m]).1 <= r@[m
                + 1].0 by {
                assert(idx@[2 * m + 1] == r@[m].1);
                assert(idx@[2 * (m + 1)] == r@[m + 1].0);
                let a = idx@[2 * m + 1] as int;
                let b = idx@[2 * (m + 1)] as int;
                assert(spans@[m].1 <= spans@[m + 1].0);
                if b < a {
                    lemma_byte_len_mono(hay@, b, a);
                }
            }
        }
        r
    }

    /// The matched texts, in order.
    pub fn find_texts(&self, haystack: &str) -> (r: Vec<String>)
        ensures
            r@.len() == match_texts(self.source(), haystack@).len(),
            forall|i: int|
                0 <= i < r@.len() ==> (#[trigger] r@[i])@ == match_texts(self.source(), haystack@)[i],
    {
        let hay = crate::strings::chars_of(haystack);
        let spans = self.find_char_spans(&hay, haystack);
        let mut r: Vec<String> = Vec::new();
        let mut i: usize = 0;
        while i < spans.len()
            invariant
                0 <= i <= spans.len(),
                hay@ == haystack@,
                r@.len() == i,
                spans@.len() == match_char_spans(self.source(), haystack@).len(),
                forall|m: int|
                    0 <= m < spans@.len() ==> (#[trigger] spans@[m]).0 as int == match_char_spans(
                        self.source(),
                        haystack@,
                    )[m].0 && spans@[m].1 as int == match_char_spans(self.source(), haystack@)[m].1
                        && spans@[m].0 <= spans@[m].1 <= hay@.len(),
                forall|m: int|
                    0 <= m < i ==> (#[trigger] r@[m])@ == match_texts(self.source(), haystack@)[m],
            decreases spans.len() - i,
        {
            let (a, b) = spans[i];
            let t = crate::strings::string_from_chars(&hay, a, b);
            r.push(t);
            i += 1;
        }
        r
    }

    /// `haystack` with every match replaced.
    pub fn replace_all(&self, haystack: &str, replacement: &str) -> (r: String)
        ensures
            r@ == replace_matches(self.source(), haystack@, replacement@),
    {
        proof {
            use_type_invariant(self);
        }
        match &self.compiled {
            Some(c) => replace_all(c, haystack, replacement),
            None => crate::strings::to_owned(haystack),
        }
    }
}

proof fn lemma_offsets_sorted(spans: Seq<(usize, usize)>, offsets: Seq<usize>, m: int, n: int)
    requires
        offsets.len() == 2 * spans.len(),
        forall|j: int|
            0 <= j < spans.len() ==> offsets[2 * j] == (#[trigger] spans[j]).0 && offsets[2 * j + 1]
                == spans[j].1,
        forall|i: int| 0 <= i < spans.len() ==> (#[trigger] spans[i]).0 <= spans[i].1,
        forall|i: int| 0 <= i < spans.len() - 1 ==> (#[trigger] spans[i]).1 <= spans[i + 1].0,
        0 <= m <= n < offsets.len(),
    ensures
        offsets[m] <= offsets[n],
    decreases n - m,
{
    if m < n {
        lemma_offsets_sorted(spans, offsets, m, n - 1);
        let j = (n - 1) / 2;
        assert(spans[j].0 <= spans[j].1);
        if n - 1 == 2 * j {
            assert(offsets[n - 1] == spans[j].0);
            assert(offsets[n] == spans[j].1);
        } else {
            assert(offsets[n - 1] == spans[j].1);
            assert(spans[j].1 <= spans[j + 1].0);
            assert(offsets[n] == spans[j + 1].0);
        }
    }
}

} // verus!
