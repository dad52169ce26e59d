//! The processed-chunks file: one JSON object per line. The lines whose
//! `content` field holds a string are the chunks that are embedded and
//! indexed again; reading the file is left to the caller.
use vstd::prelude::*;
use crate::strings::string_views;

verus! {

/// The string that `serde_json` reads as field `key` of the JSON text `line`:
/// absent when the line is not a JSON object or the field is missing or not
/// a string.
pub uninterp spec fn json_string_field(line: Seq<char>, key: Seq<char>) -> Option<Seq<char>>;

/// Parses `line` with `serde_json::from_str` into a `serde_json::Value` and
/// returns the string held by its field `key`, if the line is an object with
/// a string there.
#[verifier::external_body]
pub(crate) fn string_field(line: &str, key: &str) -> (r: Option<String>)
    ensures
        match r {
            Some(s) => json_string_field(line@, key@) == Some(s@),
            None => json_string_field(line@, key@) is None,
        },
{
    match serde_json::from_str::<serde_json::Value>(line) {
        Ok(serde_json::Value::Object(mut fields)) => match fields.remove(key) {
            Some(serde_json::Value::String(s)) => Some(s),
            _ => None,
        },
        _ => None,
    }
}

/// `(index, content)` of each of the first `n` lines whose JSON has a string
/// `content` field, in order.
pub open spec fn kept_lines(lines: Seq<Seq<char>>, n: int) -> Seq<(int, Seq<char>)>
    decreases n,
{
    if n <= 0 {
        seq![]
    } else {
        let prev = kept_lines(lines, n - 1);
        match json_string_field(lines[n - 1], "content"@) {
            Some(c) => prev.push((n - 1, c)),
            None => prev,
        }
    }
}

/// The chunks of the processed-chunks file, given its lines: the index and
/// content of each line whose JSON has a string `content` field, in order.
pub fn chunk_line_contents(lines: &Vec<String>) -> (r: Vec<(usize, String)>)
    ensures
        r@.len() == kept_lines(string_views(lines@), lines@.len() as int).len(),
        forall|i: int|
            0 <= i < r@.len() ==> (#[trigger] r@[i]).0 as int == kept_lines(
                string_views(lines@),
                lines@.len() as int,
            )[i].0 && r@[i].1@ == kept_lines(string_views(lines@), lines@.len() as int)[i].1,
{
    let ghost lv = string_views(lines@);
    let mut r: Vec<(usize, String)> = Vec::new();
    let mut i: usize = 0;
    proof {
        reveal_strlit("content");
    }
    while i < lines.len()
        invariant
            0 <= i <= lines@.len(),
            lv == string_views(lines@),
            r@.len() == kept_lines(lv, i as int).len(),
            forall|k: int|
                0 <= k < r@.len() ==> (#[trigger] r@[k]).0 as int == kept_lines(lv, i as int)[k].0
                    && r@[k].1@ == kept_lines(lv, i as int)[k].1,
        decreases lines.len() - i,
    {
        assert(lv[i as int] == lines@[i as int]@);
        match string_field(lines[i].as_str(), "content") {
            Some(c) => {
                r.push((i, c));
            },
            None => {},
        }
        i += 1;
    }
    r
}

} // verus!
