//! Unicode operations whose results are given by large tables.
//!
//! Each result is named rather than restated; the named functions stand for
//! what the outside function returns on the given argument.
use vstd::prelude::*;
use vstd::utf8::*;
use unicode_normalization::UnicodeNormalization;

verus! {

/// The NFKC normalization of a string.
pub uninterp spec fn nfkc_form(s: Seq<char>) -> Seq<char>;

/// What `str::to_lowercase` returns.
pub uninterp spec fn lowercase_form(s: Seq<char>) -> Seq<char>;

/// Whether a character is alphabetic or numeric (`char::is_alphanumeric`).
pub uninterp spec fn alphanumeric(c: char) -> bool;

/// Whether a character has the Unicode `Uppercase` property (`char::is_uppercase`).
pub uninterp spec fn uppercase(c: char) -> bool;

/// What `String::from_utf8_lossy` decodes from the bytes.
pub uninterp spec fn lossy_decode(bytes: Seq<u8>) -> Seq<char>;

/// Collects `text.nfkc()` (unicode-normalization): the NFKC form of the text.
#[verifier::external_body]
pub(crate) fn nfkc(text: &str) -> (r: String)
    ensures
        r@ == nfkc_form(text@),
{
    text.nfkc().collect()
}

/// `str::to_lowercase`.
#[verifier::external_body]
pub(crate) fn to_lowercase(text: &str) -> (r: String)
    ensures
        r@ == lowercase_form(text@),
{
    text.to_lowercase()
}

/// `char::is_alphanumeric`.
#[verifier::external_body]
pub(crate) fn is_alphanumeric(c: char) -> (b: bool)
    ensures
        b == alphanumeric(c),
{
    c.is_alphanumeric()
}

/// `char::is_uppercase`.
#[verifier::external_body]
pub(crate) fn is_uppercase(c: char) -> (b: bool)
    ensures
        b == uppercase(c),
{
    c.is_uppercase()
}

/// `String::from_utf8_lossy`, owned. As its documentation says, valid UTF-8
/// is decoded unchanged.
#[verifier::external_body]
pub(crate) fn from_utf8_lossy(bytes: &[u8]) -> (r: String)
    ensures
        r@ == lossy_decode(bytes@),
        valid_utf8(bytes@) ==> r@ == decode_utf8(bytes@),
{
    String::from_utf8_lossy(bytes).into_owned()
}

} // verus!
