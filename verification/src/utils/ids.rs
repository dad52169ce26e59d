//! ID generation utilities.
use vstd::prelude::*;
use crate::strings::push_str;
use vstd::string::*;

verus! {

pub open spec fn is_lower_hex(c: char) -> bool {
    ('0' <= c && c <= '9') || ('a' <= c && c <= 'f')
}

/// The hyphenated lower-case text of a version-4, RFC 4122 variant UUID:
/// 8-4-4-4-12 hexadecimal digits, version digit `4`, variant digit one of
/// `8`, `9`, `a`, `b`.
pub open spec fn is_v4_uuid_text(s: Seq<char>) -> bool {
    &&& s.len() == 36
    &&& forall|i: int|
        0 <= i < 36 ==> if i == 8 || i == 13 || i == 18 || i == 23 {
            #[trigger] s[i] == '-'
        } else {
            is_lower_hex(s[i])
        }
    &&& s[14] == '4'
    &&& (s[19] == '8' || s[19] == '9' || s[19] == 'a' || s[19] == 'b')
}

/// `uuid::Uuid::new_v4().to_string()`: a random version-4 UUID in its
/// hyphenated lower-case form. The digits are random; only the form is
/// promised, as the uuid source sets the version and variant bits.
#[verifier::external_body]
pub(crate) fn new_v4_text() -> (r: String)
    ensures
        is_v4_uuid_text(r@),
{
    uuid::Uuid::new_v4().to_string()
}

/// `prefix` followed by the text of a fresh random UUID.
pub open spec fn is_prefixed_uuid(s: Seq<char>, prefix: Seq<char>) -> bool {
    s.len() == prefix.len() + 36 && s.take(prefix.len() as int) == prefix && is_v4_uuid_text(
        s.skip(prefix.len() as int),
    )
}

fn prefixed_uuid(prefix: &str) -> (r: String)
    ensures
        is_prefixed_uuid(r@, prefix@),
{
    let mut s = String::from_str(prefix);
    let u = new_v4_text();
    push_str(&mut s, u.as_str());
    assert(s@.take(prefix@.len() as int) =~= prefix@);
    assert(s@.skip(prefix@.len() as int) =~= u@);
    s
}

/// ID generation utilities
pub struct IdGenerator;

impl IdGenerator {
    /// Generate a unique document ID: `doc_` and a random UUID.
    pub fn document_id() -> (r: String)
        ensures
            is_prefixed_uuid(r@, "doc_"@),
    {
        prefixed_uuid("doc_")
    }

    /// Generate a unique chunk ID: `chunk_` and a random UUID.
    pub fn chunk_id() -> (r: String)
        ensures
            is_prefixed_uuid(r@, "chunk_"@),
    {
        prefixed_uuid("chunk_")
    }

    /// Generate a unique batch ID: `batch_` and a random UUID.
    pub fn batch_id() -> (r: String)
        ensures
            is_prefixed_uuid(r@, "batch_"@),
    {
        prefixed_uuid("batch_")
    }
}

} // verus!
