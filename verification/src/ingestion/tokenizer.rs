//! Word and sentence tokenization.
use vstd::prelude::*;
use crate::byte_offsets::{byte_len, byte_length};
use crate::pattern::{match_spans, match_texts, Matcher};
use crate::strings::{
    chars_of, is_white_space, push_char, string_views, trim, trim_end, trim_start, trim_str,
};
use crate::unicode::{lowercase_form, to_lowercase};

verus! {

/// The word pattern: runs of word characters between word boundaries.
pub open spec fn word_pattern() -> Seq<char> {
    "\\b\\w+\\b"@
}

/// The tokens of `text`: each match of the word pattern, lowercased.
pub open spec fn tokens(text: Seq<char>) -> Seq<Seq<char>> {
    match_texts(word_pattern(), text).map_values(|w: Seq<char>| lowercase_form(w))
}

/// The number of tokens of `text`.
pub open spec fn token_count(text: Seq<char>) -> nat {
    match_spans(word_pattern(), text).len()
}

/// Sentence terminators.
pub open spec fn is_terminator(c: char) -> bool {
    c == '.' || c == '!' || c == '?'
}

/// The sentences of `s[i..]` when `cur` has been read since the last cut: a
/// cut follows each terminator after which the trimmed text read since the
/// previous cut is longer than one byte; each sentence is that trimmed text,
/// and a non-empty trimmed remainder is the last sentence.
pub open spec fn sentences_from(s: Seq<char>, i: int, cur: Seq<char>) -> Seq<Seq<char>>
    decreases s.len() - i,
{
    if i >= s.len() {
        if trim(cur).len() > 0 {
            seq![trim(cur)]
        } else {
            seq![]
        }
    } else {
        let cur2 = cur.push(s[i]);
        if is_terminator(s[i]) && byte_len(trim(cur2)) > 1 {
            seq![trim(cur2)] + sentences_from(s, i + 1, seq![])
        } else {
            sentences_from(s, i + 1, cur2)
        }
    }
}

/// The sentences of `s`.
pub open spec fn sentences(s: Seq<char>) -> Seq<Seq<char>> {
    sentences_from(s, 0, seq![])
}

/// Every sentence of `s[i..]` is non-empty.
proof fn lemma_sentences_from_nonempty(s: Seq<char>, i: int, cur: Seq<char>)
    requires
        0 <= i,
    ensures
        forall|k: int|
            0 <= k < sentences_from(s, i, cur).len() ==> (#[trigger] sentences_from(s, i, cur)[k]).len()
                > 0,
    decreases s.len() - i,
{
    if i < s.len() {
        let cur2 = cur.push(s[i]);
        if is_terminator(s[i]) && byte_len(trim(cur2)) > 1 {
            lemma_sentences_from_nonempty(s, i + 1, seq![]);
            let rest = sentences_from(s, i + 1, seq![]);
            assert(sentences_from(s, i, cur) == seq![trim(cur2)] + rest);
            assert forall|k: int| 0 <= k < (seq![trim(cur2)] + rest).len() implies (#[trigger] (seq![
                trim(cur2),
            ] + rest)[k]).len() > 0 by {
                if k == 0 {
                    assert(trim(cur2).len() > 0) by {
                        if trim(cur2).len() == 0 {
                            assert(trim(cur2) =~= Seq::<char>::empty());
                        }
                    }
                } else {
                    assert((seq![trim(cur2)] + rest)[k] == rest[k - 1]);
                }
            }
        } else {
            lemma_sentences_from_nonempty(s, i + 1, cur2);
            assert(sentences_from(s, i, cur) == sentences_from(s, i + 1, cur2));
        }
    }
}

/// Law: sentence splitting yields no empty sentence.
pub proof fn lemma_sentences_nonempty(s: Seq<char>)
    ensures
        forall|k: int| 0 <= k < sentences(s).len() ==> (#[trigger] sentences(s)[k]).len() > 0,
{
    lemma_sentences_from_nonempty(s, 0, seq![]);
}

/// Trimming leaves a final character that is not whitespace in place.
proof fn lemma_trim_keeps_last(s: Seq<char>)
    requires
        s.len() > 0,
        !is_white_space(s.last()),
    ensures
        trim(s).len() > 0,
        trim(s).last() == s.last(),
{
    lemma_trim_start_keeps_last(s);
}

proof fn lemma_trim_start_keeps_last(s: Seq<char>)
    requires
        s.len() > 0,
        !is_white_space(s.last()),
    ensures
        trim_start(s).len() > 0,
        trim_start(s).last() == s.last(),
        trim_end(trim_start(s)) == trim_start(s),
    decreases s.len(),
{
    if is_white_space(s[0]) {
        assert(s.len() > 1);
        assert(s.drop_first().last() == s.last());
        lemma_trim_start_keeps_last(s.drop_first());
    }
}

/// Every sentence of `s[i..]` but the last ends with a terminator.
proof fn lemma_sentences_from_end(s: Seq<char>, i: int, cur: Seq<char>)
    requires
        0 <= i,
    ensures
        forall|k: int|
            0 <= k < sentences_from(s, i, cur).len() - 1 ==> {
                let t = #[trigger] sentences_from(s, i, cur)[k];
                t.len() > 0 && (t.last() == '.' || t.last() == '!' || t.last() == '?')
            },
    decreases s.len() - i,
{
    if i < s.len() {
        let cur2 = cur.push(s[i]);
        if is_terminator(s[i]) && byte_len(trim(cur2)) > 1 {
            lemma_sentences_from_end(s, i + 1, seq![]);
            lemma_trim_keeps_last(cur2);
            let rest = sentences_from(s, i + 1, seq![]);
            let all = seq![trim(cur2)] + rest;
            assert(sentences_from(s, i, cur) == all);
            assert forall|k: int| 0 <= k < all.len() - 1 implies {
                let t = #[trigger] all[k];
                t.len() > 0 && (t.last() == '.' || t.last() == '!' || t.last() == '?')
            } by {
                if k > 0 {
                    assert(all[k] == rest[k - 1]);
                }
            }
        } else {
            lemma_sentences_from_end(s, i + 1, cur2);
            assert(sentences_from(s, i, cur) == sentences_from(s, i + 1, cur2));
        }
    }
}

/// Law: sentences are cut only after `.`, `!` or `?`: every sentence but the
/// last ends with one of them.
pub proof fn lemma_sentences_end_with_terminator(s: Seq<char>)
    ensures
        forall|k: int|
            0 <= k < sentences(s).len() - 1 ==> {
                let t = #[trigger] sentences(s)[k];
                t.len() > 0 && (t.last() == '.' || t.last() == '!' || t.last() == '?')
            },
{
    lemma_sentences_from_end(s, 0, seq![]);
}

/// Law: the token count of a text is the number of its tokens.
pub proof fn lemma_count_is_number_of_tokens(text: Seq<char>)
    ensures
        token_count(text) == tokens(text).len(),
{
}

/// `ceil(n / 4)`.
pub open spec fn quarter_ceil(n: nat) -> nat {
    (n + 3) / 4
}

/// Simple tokenizer for splitting text into tokens
pub struct Tokenizer {
    word_pattern: Matcher,
}

impl Tokenizer {
    #[verifier::type_invariant]
    closed spec fn inv(&self) -> bool {
        self.word_pattern.source() == word_pattern()
    }

    /// The pattern whose matches are the tokens.
    pub closed spec fn pattern(&self) -> Seq<char> {
        self.word_pattern.source()
    }

    /// A tokenizer whose tokens are the matches of `\b\w+\b`.
    pub fn new() -> (t: Self)
        ensures
            t.pattern() == word_pattern(),
    {
        Tokenizer { word_pattern: Matcher::new("\\b\\w+\\b") }
    }

    /// Tokenize text into words
    pub fn tokenize(&self, text: &str) -> (r: Vec<String>)
        ensures
            string_views(r@) == tokens(text@),
    {
        proof {
            use_type_invariant(self);
        }
        let words = self.word_pattern.find_texts(text);
        let mut r: Vec<String> = Vec::new();
        let mut i: usize = 0;
        while i < words.len()
            invariant
                0 <= i <= words.len(),
                self.word_pattern.source() == word_pattern(),
                words@.len() == match_texts(word_pattern(), text@).len(),
                forall|m: int|
                    0 <= m < words@.len() ==> (#[trigger] words@[m])@ == match_texts(
                        word_pattern(),
                        text@,
                    )[m],
                string_views(r@) == tokens(text@).take(i as int),
            decreases words.len() - i,
        {
            let lower = to_lowercase(words[i].as_str());
            let ghost rv = string_views(r@);
            r.push(lower);
            assert(string_views(r@) =~= rv.push(lower@));
            assert(tokens(text@).take(i + 1) =~= tokens(text@).take(i as int).push(
                tokens(text@)[i as int],
            ));
            i += 1;
        }
        assert(tokens(text@).take(i as int) =~= tokens(text@));
        r
    }

    /// Count tokens in text
    pub fn count_tokens(&self, text: &str) -> (n: usize)
        ensures
            n == token_count(text@),
    {
        proof {
            use_type_invariant(self);
        }
        self.word_pattern.find_byte_spans(text).len()
    }

    /// Split text into sentences
    pub fn tokenize_sentences(&self, text: &str) -> (r: Vec<String>)
        ensures
            string_views(r@) == sentences(text@),
    {
        let v = chars_of(text);
        let mut sentences_out: Vec<String> = Vec::new();
        let mut current = String::new();
        let mut i: usize = 0;
        while i < v.len()
            invariant
                0 <= i <= v.len(),
                v@ == text@,
                sentences(text@) == string_views(sentences_out@) + sentences_from(
                    v@,
                    i as int,
                    current@,
                ),
            decreases v.len() - i,
        {
            let ch = v[i];
            let ghost before = current@;
            push_char(&mut current, ch);
            let ghost cur2 = current@;
            assert(sentences_from(v@, i as int, before) == (if is_terminator(v@[i as int])
                && byte_len(trim(cur2)) > 1 {
                seq![trim(cur2)] + sentences_from(v@, i + 1, seq![])
            } else {
                sentences_from(v@, i + 1, cur2)
            }));
            if ch == '.' || ch == '!' || ch == '?' {
                let trimmed = trim_str(current.as_str());
                if byte_length(trimmed.as_str()) > 1 {
                    let ghost sv = string_views(sentences_out@);
                    sentences_out.push(trimmed);
                    assert(string_views(sentences_out@) =~= sv + seq![trimmed@]);
                    current = String::new();
                    assert(sv + (seq![trimmed@] + sentences_from(v@, i + 1, current@))
                        =~= string_views(sentences_out@) + sentences_from(v@, i + 1, current@));
                }
            }
            i += 1;
        }
        let trimmed = trim_str(current.as_str());
        if !trimmed.as_str().is_empty() {
            let ghost sv = string_views(sentences_out@);
            sentences_out.push(trimmed);
            assert(string_views(sentences_out@) =~= sv + seq![trimmed@]);
        } else {
            assert(string_views(sentences_out@) + seq![] =~= string_views(sentences_out@));
        }
        sentences_out
    }

    /// Count characters in text
    pub fn count_chars(&self, text: &str) -> (n: usize)
        ensures
            n == text@.len(),
    {
        chars_of(text).len()
    }

    /// Estimate token count (faster than exact count):
    /// about four bytes per token for English, rounded up.
    pub fn estimate_tokens(&self, text: &str) -> (n: usize)
        ensures
            n == quarter_ceil(byte_len(text@)),
    {
        let len = byte_length(text);
        let q = len / 4;
        let r = len % 4;
        assert(len == 4 * q + r) by (nonlinear_arith)
            requires
                q == len / 4,
                r == len % 4,
        ;
        if r == 0 {
            assert((len + 3) / 4 == q) by (nonlinear_arith)
                requires
                    len == 4 * q,
            ;
            q
        } else {
            assert((len + 3) / 4 == q + 1) by (nonlinear_arith)
                requires
                    len == 4 * q + r,
                    0 < r < 4,
            ;
            q + 1
        }
    }
}

} // verus!
