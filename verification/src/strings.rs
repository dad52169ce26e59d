//! Character and string operations with mathematical specifications.
//!
//! Strings are viewed as `Seq<char>`. The specifications here follow the
//! documented behaviour of the corresponding `str` methods of std.
use vstd::prelude::*;
use vstd::string::*;

verus! {

/// Unicode `White_Space` property (what `char::is_whitespace` tests).
pub open spec fn is_white_space(c: char) -> bool {
    ||| ('\u{9}' <= c && c <= '\u{d}')
    ||| c == ' '
    ||| c == '\u{85}'
    ||| c == '\u{a0}'
    ||| c == '\u{1680}'
    ||| ('\u{2000}' <= c && c <= '\u{200a}')
    ||| c == '\u{2028}'
    ||| c == '\u{2029}'
    ||| c == '\u{202f}'
    ||| c == '\u{205f}'
    ||| c == '\u{3000}'
}

/// Whether `c` has the Unicode `White_Space` property.
pub fn is_whitespace(c: char) -> (b: bool)
    ensures
        b == is_white_space(c),
{
    ('\u{9}' <= c && c <= '\u{d}') || c == ' ' || c == '\u{85}' || c == '\u{a0}' || c == '\u{1680}'
        || ('\u{2000}' <= c && c <= '\u{200a}') || c == '\u{2028}' || c == '\u{2029}' || c
        == '\u{202f}' || c == '\u{205f}' || c == '\u{3000}'
}

/// ASCII graphic characters: `'!'..='~'`.
pub open spec fn is_ascii_graphic_char(c: char) -> bool {
    '!' <= c && c <= '~'
}

/// ASCII whitespace as `char::is_ascii_whitespace` defines it.
pub open spec fn is_ascii_white_space(c: char) -> bool {
    c == ' ' || c == '\t' || c == '\n' || c == '\u{c}' || c == '\r'
}

pub fn is_ascii_graphic(c: char) -> (b: bool)
    ensures
        b == is_ascii_graphic_char(c),
{
    '!' <= c && c <= '~'
}

pub fn is_ascii_whitespace(c: char) -> (b: bool)
    ensures
        b == is_ascii_white_space(c),
{
    c == ' ' || c == '\t' || c == '\n' || c == '\u{c}' || c == '\r'
}

/// Appends one character to a string (std `String::push`).
#[verifier::external_body]
pub(crate) fn push_char(s: &mut String, c: char)
    ensures
        final(s)@ == old(s)@.push(c),
{
    s.push(c);
}

/// Appends a string slice to a string.
pub fn push_str(s: &mut String, t: &str)
    ensures
        final(s)@ == old(s)@ + t@,
{
    s.append(t);
}

/// The characters of a string slice, in order.
pub fn chars_of(s: &str) -> (v: Vec<char>)
    ensures
        v@ == s@,
{
    let mut v: Vec<char> = Vec::new();
    for c in it: s.chars()
        invariant
            v@ == it.seq().take(it.index() as int),
            it.seq() == s@,
    {
        v.push(c);
    }
    v
}

/// The string made of `v[lo..hi]`.
pub fn string_from_chars(v: &Vec<char>, lo: usize, hi: usize) -> (s: String)
    requires
        lo <= hi <= v.len(),
    ensures
        s@ == v@.subrange(lo as int, hi as int),
{
    let mut s = String::new();
    let mut i = lo;
    while i < hi
        invariant
            lo <= i <= hi <= v.len(),
            s@ == v@.subrange(lo as int, i as int),
        decreases hi - i,
    {
        push_char(&mut s, v[i]);
        assert(v@.subrange(lo as int, i + 1) =~= v@.subrange(lo as int, i as int).push(v@[i as int]));
        i += 1;
    }
    s
}

/// An owned copy of a string slice.
pub fn to_owned(s: &str) -> (r: String)
    ensures
        r@ == s@,
{
    s.to_owned()
}

// ---------------------------------------------------------------- trimming

/// `s` without its leading whitespace.
pub open spec fn trim_start(s: Seq<char>) -> Seq<char>
    decreases s.len(),
{
    if s.len() > 0 && is_white_space(s[0]) {
        trim_start(s.drop_first())
    } else {
        s
    }
}

/// `s` without its trailing whitespace.
pub open spec fn trim_end(s: Seq<char>) -> Seq<char>
    decreases s.len(),
{
    if s.len() > 0 && is_white_space(s.last()) {
        trim_end(s.drop_last())
    } else {
        s
    }
}

/// `s` without leading and trailing whitespace (what `str::trim` returns).
pub open spec fn trim(s: Seq<char>) -> Seq<char> {
    trim_end(trim_start(s))
}

proof fn lemma_trim_start_from(s: Seq<char>, i: int)
    requires
        0 <= i <= s.len(),
        forall|j: int| 0 <= j < i ==> is_white_space(#[trigger] s[j]),
    ensures
        trim_start(s) == trim_start(s.subrange(i, s.len() as int)),
    decreases i,
{
    if i > 0 {
        assert(s.drop_first().subrange(i - 1, s.drop_first().len() as int) =~= s.subrange(
            i,
            s.len() as int,
        ));
        lemma_trim_start_from(s.drop_first(), i - 1);
    } else {
        assert(s.subrange(0, s.len() as int) =~= s);
    }
}

proof fn lemma_trim_end_to(s: Seq<char>, k: int)
    requires
        0 <= k <= s.len(),
        forall|j: int| k <= j < s.len() ==> is_white_space(#[trigger] s[j]),
    ensures
        trim_end(s) == trim_end(s.subrange(0, k)),
    decreases s.len() - k,
{
    if k < s.len() {
        assert(s.drop_last().subrange(0, k) =~= s.subrange(0, k));
        lemma_trim_end_to(s.drop_last(), k);
    } else {
        assert(s.subrange(0, k) =~= s);
    }
}

/// `str::trim`: the slice without leading and trailing whitespace.
pub fn trim_str(s: &str) -> (r: String)
    ensures
        r@ == trim(s@),
{
    let v = chars_of(s);
    assert(v@.subrange(0, v@.len() as int) =~= v@);
    trim_chars(&v, 0, v.len())
}

/// `v[lo..hi]` trimmed, as a string.
pub fn trim_chars(v: &Vec<char>, lo: usize, hi: usize) -> (r: String)
    requires
        lo <= hi <= v.len(),
    ensures
        r@ == trim(v@.subrange(lo as int, hi as int)),
{
    let ghost s = v@.subrange(lo as int, hi as int);
    let mut a = lo;
    while a < hi && is_whitespace(v[a])
        invariant
            lo <= a <= hi <= v.len(),
            s == v@.subrange(lo as int, hi as int),
            forall|j: int| lo <= j < a ==> is_white_space(#[trigger] v@[j]),
        decreases hi - a,
    {
        a += 1;
    }
    proof {
        assert forall|j: int| 0 <= j < a - lo implies is_white_space(#[trigger] s[j]) by {
            assert(s[j] == v@[lo + j]);
        }
        lemma_trim_start_from(s, a - lo);
        assert(s.subrange(a - lo, s.len() as int) =~= v@.subrange(a as int, hi as int));
        let t = v@.subrange(a as int, hi as int);
        assert(a < hi ==> !is_white_space(t[0]));
        assert(trim_start(t) == t);
    }
    let mut b = hi;
    while b > a && is_whitespace(v[b - 1])
        invariant
            lo <= a <= b <= hi <= v.len(),
            forall|j: int| b <= j < hi ==> is_white_space(#[trigger] v@[j]),
        decreases b - a,
    {
        b -= 1;
    }
    proof {
        let t = v@.subrange(a as int, hi as int);
        assert forall|j: int| b - a <= j < t.len() implies is_white_space(#[trigger] t[j]) by {
            assert(t[j] == v@[a + j]);
        }
        lemma_trim_end_to(t, b - a);
        assert(t.subrange(0, b - a) =~= v@.subrange(a as int, b as int));
        let u = v@.subrange(a as int, b as int);
        assert(u.len() > 0 ==> !is_white_space(u.last()));
        assert(trim_end(u) == u);
    }
    string_from_chars(v, a, b)
}


// ---------------------------------------------------------------- words

/// The words of `s`: its maximal runs of non-whitespace characters, in order
/// (what `str::split_whitespace` yields).
pub open spec fn words(s: Seq<char>) -> Seq<Seq<char>>
    decreases s.len(),
{
    if s.len() == 0 {
        seq![]
    } else {
        let p = s.drop_last();
        let c = s.last();
        let w = words(p);
        if is_white_space(c) {
            w
        } else if p.len() > 0 && !is_white_space(p.last()) {
            w.update(w.len() - 1, w.last().push(c))
        } else {
            w.push(seq![c])
        }
    }
}

/// A word list with a word under construction appended when it is not empty.
pub open spec fn with_pending(done: Seq<Seq<char>>, cur: Seq<char>) -> Seq<Seq<char>> {
    if cur.len() > 0 {
        done.push(cur)
    } else {
        done
    }
}

pub open spec fn string_views(v: Seq<String>) -> Seq<Seq<char>> {
    v.map_values(|x: String| x@)
}

/// `str::split_whitespace`, collected.
pub fn split_whitespace(s: &str) -> (r: Vec<String>)
    ensures
        string_views(r@) == words(s@),
{
    let v = chars_of(s);
    split_whitespace_chars(&v)
}

pub fn split_whitespace_chars(v: &Vec<char>) -> (r: Vec<String>)
    ensures
        string_views(r@) == words(v@),
{
    let mut done: Vec<String> = Vec::new();
    let mut cur = String::new();
    let mut i: usize = 0;
    assert(v@.take(0) =~= seq![]);
    while i < v.len()
        invariant
            0 <= i <= v.len(),
            words(v@.take(i as int)) == with_pending(string_views(done@), cur@),
            cur@.len() > 0 <==> (i > 0 && !is_white_space(v@[i - 1])),
        decreases v.len() - i,
    {
        let c = v[i];
        let ghost pre = v@.take(i as int);
        assert(v@.take(i + 1).drop_last() =~= pre);
        assert(v@.take(i + 1).last() == c);
        if is_whitespace(c) {
            if !cur.as_str().is_empty() {
                let ghost dv = string_views(done@);
                done.push(cur);
                assert(string_views(done@) =~= dv.push(cur@));
                cur = String::new();
            }
        } else {
            let ghost w = with_pending(string_views(done@), cur@);
            push_char(&mut cur, c);
            proof {
                if i > 0 && !is_white_space(v@[i - 1]) {
                    assert(pre.last() == v@[i - 1]);
                    assert(w.update(w.len() - 1, w.last().push(c)) =~= string_views(done@).push(
                        cur@,
                    ));
                } else {
                    assert(cur@ =~= seq![c]);
                }
            }
        }
        i += 1;
    }
    assert(v@.take(v.len() as int) =~= v@);
    if !cur.as_str().is_empty() {
        let ghost dv = string_views(done@);
        done.push(cur);
        assert(string_views(done@) =~= dv.push(cur@));
    }
    done
}

// ---------------------------------------------------------------- splitting on a character

/// The pieces of `s` between occurrences of `d` (what `str::split(d)` yields):
/// always at least one piece.
pub open spec fn split_on(s: Seq<char>, d: char) -> Seq<Seq<char>>
    decreases s.len(),
{
    if s.len() == 0 {
        seq![seq![]]
    } else {
        let w = split_on(s.drop_last(), d);
        if s.last() == d {
            w.push(seq![])
        } else {
            w.update(w.len() - 1, w.last().push(s.last()))
        }
    }
}

pub proof fn lemma_split_on_nonempty(s: Seq<char>, d: char)
    ensures
        split_on(s, d).len() >= 1,
    decreases s.len(),
{
    if s.len() > 0 {
        lemma_split_on_nonempty(s.drop_last(), d);
    }
}

/// `str::split` on one character, collected.
pub fn split_on_char(v: &Vec<char>, d: char) -> (r: Vec<String>)
    ensures
        string_views(r@) == split_on(v@, d),
{
    let mut done: Vec<String> = Vec::new();
    let mut cur = String::new();
    let mut i: usize = 0;
    assert(v@.take(0) =~= seq![]);
    while i < v.len()
        invariant
            0 <= i <= v.len(),
            split_on(v@.take(i as int), d) == string_views(done@).push(cur@),
        decreases v.len() - i,
    {
        let c = v[i];
        let ghost pre = v@.take(i as int);
        assert(v@.take(i + 1).drop_last() =~= pre);
        assert(v@.take(i + 1).last() == c);
        let ghost dv = string_views(done@);
        if c == d {
            done.push(cur);
            assert(string_views(done@) =~= dv.push(cur@));
            cur = String::new();
            assert(split_on(v@.take(i + 1), d) =~= string_views(done@).push(cur@));
        } else {
            let ghost old_cur = cur@;
            push_char(&mut cur, c);
            assert(dv.push(old_cur).update(dv.len() as int, old_cur.push(c)) =~= dv.push(cur@));
        }
        i += 1;
    }
    assert(v@.take(v.len() as int) =~= v@);
    let ghost dv = string_views(done@);
    done.push(cur);
    assert(string_views(done@) =~= dv.push(cur@));
    done
}

// ---------------------------------------------------------------- lines

/// A line's text without the carriage return that preceded its newline.
pub open spec fn strip_cr(seg: Seq<char>) -> Seq<char> {
    if seg.len() > 0 && seg.last() == '\r' {
        seg.drop_last()
    } else {
        seg
    }
}

/// The lines of `s` (what `str::lines` yields): pieces between `\n`, where a
/// `\r` just before a `\n` is dropped and a final line ending is optional.
pub open spec fn lines(s: Seq<char>) -> Seq<Seq<char>> {
    if s.len() == 0 {
        seq![]
    } else {
        let segs = split_on(s, '\n');
        let kept = if s.last() == '\n' {
            segs.drop_last()
        } else {
            segs
        };
        Seq::new(
            kept.len(),
            |i: int|
                if i + 1 < segs.len() {
                    strip_cr(kept[i])
                } else {
                    kept[i]
                },
        )
    }
}

/// Strips one trailing `\r` from a string.
fn strip_cr_string(seg: String) -> (r: String)
    ensures
        r@ == strip_cr(seg@),
{
    let v = chars_of(seg.as_str());
    if v.len() > 0 && v[v.len() - 1] == '\r' {
        string_from_chars(&v, 0, v.len() - 1)
    } else {
        seg
    }
}

/// `str::lines`, collected.
pub fn lines_of(s: &str) -> (r: Vec<String>)
    ensures
        string_views(r@) == lines(s@),
{
    let v = chars_of(s);
    if v.len() == 0 {
        return Vec::new();
    }
    let segs = split_on_char(&v, '\n');
    proof {
        lemma_split_on_nonempty(v@, '\n');
    }
    let ends_with_newline = v[v.len() - 1] == '\n';
    let n = if ends_with_newline {
        segs.len() - 1
    } else {
        segs.len()
    };
    let ghost kept = if v@.last() == '\n' {
        split_on(v@, '\n').drop_last()
    } else {
        split_on(v@, '\n')
    };
    let ghost spec_lines = lines(v@);
    assert(spec_lines.len() == n);
    let mut out: Vec<String> = Vec::new();
    let mut i: usize = 0;
    while i < n
        invariant
            0 <= i <= n <= segs.len(),
            n == kept.len(),
            string_views(segs@) == split_on(v@, '\n'),
            kept == (if v@.last() == '\n' {
                split_on(v@, '\n').drop_last()
            } else {
                split_on(v@, '\n')
            }),
            spec_lines == lines(v@),
            v@.len() > 0,
            spec_lines.len() == n,
            string_views(out@) == spec_lines.take(i as int),
        decreases n - i,
    {
        let seg = segs[i].clone();
        assert(seg@ == kept[i as int]);
        let line = if i + 1 < segs.len() {
            strip_cr_string(seg)
        } else {
            seg
        };
        let ghost ov = string_views(out@);
        out.push(line);
        assert(string_views(out@) =~= ov.push(line@));
        assert(spec_lines.take(i + 1) =~= spec_lines.take(i as int).push(spec_lines[i as int]));
        i += 1;
    }
    assert(spec_lines.take(n as int) =~= spec_lines);
    out
}

// ---------------------------------------------------------------- joining

/// The pieces of `parts` with `sep` between consecutive pieces (`[T]::join`).
pub open spec fn join(parts: Seq<Seq<char>>, sep: Seq<char>) -> Seq<char>
    decreases parts.len(),
{
    if parts.len() == 0 {
        seq![]
    } else if parts.len() == 1 {
        parts[0]
    } else {
        join(parts.drop_last(), sep) + sep + parts.last()
    }
}

/// Joins strings with a separator.
pub fn join_strings(parts: &Vec<String>, sep: &str) -> (r: String)
    ensures
        r@ == join(string_views(parts@), sep@),
{
    let mut r = String::new();
    let mut i: usize = 0;
    while i < parts.len()
        invariant
            0 <= i <= parts.len(),
            r@ == join(string_views(parts@).take(i as int), sep@),
        decreases parts.len() - i,
    {
        let ghost pv = string_views(parts@);
        assert(pv.take(i + 1).drop_last() =~= pv.take(i as int));
        if i > 0 {
            push_str(&mut r, sep);
        } else {
            assert(r@ =~= seq![]);
        }
        push_str(&mut r, parts[i].as_str());
        proof {
            if i == 0 {
                assert(r@ =~= pv.take(1)[0]);
            }
        }
        i += 1;
    }
    assert(string_views(parts@).take(parts.len() as int) =~= string_views(parts@));
    r
}

// ---------------------------------------------------------------- character replacement

/// `s` with every `from` replaced by `to` (`str::replace` with a `char` pattern).
pub open spec fn replace_char(s: Seq<char>, from: char, to: Seq<char>) -> Seq<char>
    decreases s.len(),
{
    if s.len() == 0 {
        seq![]
    } else {
        replace_char(s.drop_last(), from, to) + if s.last() == from {
            to
        } else {
            seq![s.last()]
        }
    }
}

/// `str::replace(from, to)` for a single-character pattern.
pub fn replace_char_str(s: &str, from: char, to: &str) -> (r: String)
    ensures
        r@ == replace_char(s@, from, to@),
{
    let v = chars_of(s);
    let mut r = String::new();
    let mut i: usize = 0;
    assert(v@.take(0) =~= seq![]);
    while i < v.len()
        invariant
            0 <= i <= v.len(),
            v@ == s@,
            r@ == replace_char(v@.take(i as int), from, to@),
        decreases v.len() - i,
    {
        assert(v@.take(i + 1).drop_last() =~= v@.take(i as int));
        if v[i] == from {
            push_str(&mut r, to);
        } else {
            push_char(&mut r, v[i]);
            assert(r@ =~= replace_char(v@.take(i as int), from, to@) + seq![v@[i as int]]);
        }
        i += 1;
    }
    assert(v@.take(v.len() as int) =~= v@);
    r
}


// ---------------------------------------------------------------- splitting on a string

/// Whether `pat` occurs in `s` at position `i`.
pub open spec fn occurs_at(s: Seq<char>, pat: Seq<char>, i: int) -> bool {
    0 <= i && i + pat.len() <= s.len() && s.subrange(i, i + pat.len()) == pat
}

/// The pieces of `s[i..]` between the leftmost non-overlapping occurrences of
/// `pat`, the first piece starting with `cur`.
pub open spec fn split_from(s: Seq<char>, pat: Seq<char>, i: int, cur: Seq<char>) -> Seq<
    Seq<char>,
>
    recommends
        pat.len() > 0,
    decreases s.len() - i,
    when 0 <= i && pat.len() > 0
{
    if i >= s.len() {
        seq![cur]
    } else if occurs_at(s, pat, i) {
        seq![cur] + split_from(s, pat, i + pat.len(), seq![])
    } else {
        split_from(s, pat, i + 1, cur.push(s[i]))
    }
}

/// The pieces of `s` between the leftmost non-overlapping occurrences of a
/// non-empty `pat` (what `str::split(pat)` yields).
pub open spec fn split_str(s: Seq<char>, pat: Seq<char>) -> Seq<Seq<char>> {
    split_from(s, pat, 0, seq![])
}

/// `str::split` on a non-empty string pattern, collected.
pub fn split_on_str(s: &str, pat: &str) -> (r: Vec<String>)
    requires
        pat@.len() > 0,
    ensures
        string_views(r@) == split_str(s@, pat@),
{
    let v = chars_of(s);
    let p = chars_of(pat);
    let mut done: Vec<String> = Vec::new();
    let mut cur = String::new();
    let mut i: usize = 0;
    while i < v.len()
        invariant
            0 <= i <= v.len(),
            v@ == s@,
            p@ == pat@,
            p@.len() > 0,
            split_str(v@, p@) == string_views(done@) + split_from(v@, p@, i as int, cur@),
        decreases v.len() - i,
    {
        let m = match_at(&v, &p, i);
        let ghost dv = string_views(done@);
        if m {
            done.push(cur);
            assert(string_views(done@) =~= dv.push(cur@));
            cur = String::new();
            assert(dv + (seq![string_views(done@).last()] + split_from(v@, p@, i + p@.len(), cur@))
                =~= string_views(done@) + split_from(v@, p@, i + p@.len(), cur@));
            i = i + p.len();
        } else {
            push_char(&mut cur, v[i]);
            i = i + 1;
        }
    }
    let ghost dv = string_views(done@);
    done.push(cur);
    assert(string_views(done@) =~= dv.push(cur@));
    assert(dv + seq![cur@] =~= dv.push(cur@));
    done
}

/// Whether `p` occurs in `v` at position `i`.
pub fn match_at(v: &Vec<char>, p: &Vec<char>, i: usize) -> (b: bool)
    requires
        i <= v.len(),
    ensures
        b == occurs_at(v@, p@, i as int),
{
    if p.len() > v.len() - i {
        return false;
    }
    let mut j: usize = 0;
    while j < p.len()
        invariant
            0 <= j <= p.len(),
            i + p.len() <= v.len(),
            forall|k: int| 0 <= k < j ==> v@[i + k] == p@[k],
        decreases p.len() - j,
    {
        if v[i + j] != p[j] {
            assert(v@.subrange(i as int, i + p@.len())[j as int] != p@[j as int]);
            return false;
        }
        j += 1;
    }
    assert(v@.subrange(i as int, i + p@.len()) =~= p@);
    true
}

// ---------------------------------------------------------------- decimal numerals

/// The decimal digit for `d < 10`.
pub open spec fn digit_char(d: nat) -> char {
    if d == 0 {
        '0'
    } else if d == 1 {
        '1'
    } else if d == 2 {
        '2'
    } else if d == 3 {
        '3'
    } else if d == 4 {
        '4'
    } else if d == 5 {
        '5'
    } else if d == 6 {
        '6'
    } else if d == 7 {
        '7'
    } else if d == 8 {
        '8'
    } else {
        '9'
    }
}

/// The decimal numeral of `n`, without leading zeros (what `{}` prints).
pub open spec fn decimal(n: nat) -> Seq<char>
    decreases n,
{
    if n < 10 {
        seq![digit_char(n)]
    } else {
        decimal(n / 10).push(digit_char(n % 10))
    }
}

fn digit(d: usize) -> (c: char)
    requires
        d < 10,
    ensures
        c == digit_char(d as nat),
{
    if d == 0 {
        '0'
    } else if d == 1 {
        '1'
    } else if d == 2 {
        '2'
    } else if d == 3 {
        '3'
    } else if d == 4 {
        '4'
    } else if d == 5 {
        '5'
    } else if d == 6 {
        '6'
    } else if d == 7 {
        '7'
    } else if d == 8 {
        '8'
    } else {
        '9'
    }
}

/// Appends the decimal numeral of `n` to `s`.
pub fn push_decimal(s: &mut String, n: usize)
    ensures
        final(s)@ == old(s)@ + decimal(n as nat),
    decreases n,
{
    if n >= 10 {
        push_decimal(s, n / 10);
    }
    push_char(s, digit(n % 10));
}

/// The value of a sequence of ASCII digits.
pub open spec fn digits_value(s: Seq<char>) -> nat
    decreases s.len(),
{
    if s.len() == 0 {
        0
    } else {
        digits_value(s.drop_last()) * 10 + ((s.last() as nat) - ('0' as nat)) as nat
    }
}

pub open spec fn all_ascii_digits(s: Seq<char>) -> bool {
    forall|i: int| 0 <= i < s.len() ==> '0' <= #[trigger] s[i] && s[i] <= '9'
}

/// Whether `s` is accepted by `str::parse::<u32>`: an optional `+`, then one
/// or more ASCII digits whose value fits in a `u32`.
pub open spec fn parses_as_u32(s: Seq<char>) -> bool {
    let digits = if s.len() > 0 && s[0] == '+' {
        s.drop_first()
    } else {
        s
    };
    digits.len() > 0 && all_ascii_digits(digits) && digits_value(digits) <= u32::MAX
}

proof fn lemma_digits_value_monotone(s: Seq<char>, i: int)
    requires
        0 <= i <= s.len(),
        all_ascii_digits(s),
    ensures
        digits_value(s.take(i)) <= digits_value(s),
    decreases s.len() - i,
{
    if i < s.len() {
        let t = s.take(i + 1);
        assert(t.drop_last() =~= s.take(i));
        assert('0' <= t.last() <= '9');
        lemma_digits_value_monotone(s, i + 1);
    } else {
        assert(s.take(i) =~= s);
    }
}

/// Whether the string parses as a `u32` (`str::parse::<u32>().is_ok()`).
pub fn is_u32_literal(v: &Vec<char>) -> (b: bool)
    ensures
        b == parses_as_u32(v@),
{
    let start: usize = if v.len() > 0 && v[0] == '+' {
        1
    } else {
        0
    };
    let ghost digits = if v@.len() > 0 && v@[0] == '+' {
        v@.drop_first()
    } else {
        v@
    };
    assert(digits =~= v@.subrange(start as int, v@.len() as int));
    if start >= v.len() {
        return false;
    }
    let mut value: u64 = 0;
    let mut i = start;
    assert(digits.take(0) =~= seq![]);
    while i < v.len()
        invariant
            start <= i <= v.len(),
            start < v.len(),
            digits =~= v@.subrange(start as int, v@.len() as int),
            digits == (if v@.len() > 0 && v@[0] == '+' {
                v@.drop_first()
            } else {
                v@
            }),
            all_ascii_digits(digits.take(i - start)),
            value == digits_value(digits.take(i - start)),
            value <= u32::MAX,
        decreases v.len() - i,
    {
        let c = v[i];
        let ghost t = digits.take(i - start + 1);
        assert(t.drop_last() =~= digits.take(i - start));
        assert(t.last() == c);
        if c < '0' || c > '9' {
            assert(!all_ascii_digits(digits)) by {
                assert(digits[i - start] == c);
            }
            return false;
        }
        let d = (c as u32 - '0' as u32) as u64;
        value = value * 10 + d;
        if value > 4294967295 {
            proof {
                assert(all_ascii_digits(digits.take(i - start + 1)));
                if all_ascii_digits(digits) {
                    lemma_digits_value_monotone(digits, i - start + 1);
                }
            }
            return false;
        }
        i += 1;
    }
    assert(digits.take(i - start) =~= digits);
    true
}

} // verus!
