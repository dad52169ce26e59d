//! Shared metadata structure for documents.
use vstd::prelude::*;
use vstd::string::*;

verus! {

/// `s[lo..hi]` are ASCII digits.
pub open spec fn ascii_digits_in(s: Seq<char>, lo: int, hi: int) -> bool {
    forall|i: int| lo <= i < hi ==> '0' <= #[trigger] s[i] && s[i] <= '9'
}

/// `s` is an RFC 3339 UTC time with a fraction of `frac` digits (0 for none):
/// a date ending in `YYYY-MM-DD` (a year outside 0..=9999 is written with a
/// sign and as many digits as it needs), `T`, `HH:MM:SS`, then `.` and the
/// fraction digits when there are any, then `+00:00`.
pub open spec fn is_rfc3339_utc_with(s: Seq<char>, frac: int) -> bool {
    let n = s.len() as int;
    let p = n - 6 - (if frac == 0 {
        0
    } else {
        frac + 1
    });
    &&& p >= 19
    &&& s.subrange(n - 6, n) == "+00:00"@
    &&& ascii_digits_in(s, p - 19, p - 15)
    &&& s[p - 15] == '-'
    &&& ascii_digits_in(s, p - 14, p - 12)
    &&& s[p - 12] == '-'
    &&& ascii_digits_in(s, p - 11, p - 9)
    &&& s[p - 9] == 'T'
    &&& ascii_digits_in(s, p - 8, p - 6)
    &&& s[p - 6] == ':'
    &&& ascii_digits_in(s, p - 5, p - 3)
    &&& s[p - 3] == ':'
    &&& ascii_digits_in(s, p - 2, p)
    &&& frac > 0 ==> s[p] == '.' && ascii_digits_in(s, p + 1, p + 1 + frac)
}

/// `s` is a time as `DateTime<Utc>::to_rfc3339` writes it: the fraction of a
/// second is left out when zero, else written with 3, 6 or 9 digits.
pub open spec fn is_rfc3339_utc(s: Seq<char>) -> bool {
    ||| is_rfc3339_utc_with(s, 0)
    ||| is_rfc3339_utc_with(s, 3)
    ||| is_rfc3339_utc_with(s, 6)
    ||| is_rfc3339_utc_with(s, 9)
}

/// `chrono::Utc::now().to_rfc3339()`: the current UTC time in RFC 3339 form.
/// The time read depends on the clock; the form does not (chrono writes the
/// date, `T`, the time, an optional fraction of 3, 6 or 9 digits and the
/// offset `+00:00`).
#[verifier::external_body]
pub(crate) fn now_rfc3339() -> (r: String)
    ensures
        is_rfc3339_utc(r@),
{
    chrono::Utc::now().to_rfc3339()
}

/// Shared metadata structure for documents. Times are RFC 3339 strings.
#[derive(Debug, Clone)]
pub struct Metadata {
    pub created_at: String,
    pub updated_at: String,
    pub source_type: String,
    pub tags: Vec<String>,
}

impl Default for Metadata {
    /// Metadata stamped with the current time, for a PDF source, without tags.
    fn default() -> (m: Metadata)
        ensures
            is_rfc3339_utc(m.created_at@),
            m.created_at@ == m.updated_at@,
            m.source_type@ == "pdf"@,
            m.tags@.len() == 0,
    {
        let now = now_rfc3339();
        let updated = now.clone();
        Metadata { created_at: now, updated_at: updated, source_type: String::from_str("pdf"), tags: Vec::new() }
    }
}

} // verus!
