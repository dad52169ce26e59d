//! Path handling for file names.
//!
//! Paths are `/`-separated. The specifications follow `std::path::Path` on
//! Unix: `file_name` is the last normal component, `extension` and
//! `file_stem` split it at its last dot.
use vstd::prelude::*;
use vstd::string::*;
use crate::ingestion::book_loader::str_eq;
use crate::strings::{chars_of, split_on, split_on_char, string_from_chars, string_views};

verus! {

pub open spec fn dot() -> Seq<char> {
    seq!['.']
}

pub open spec fn dot_dot() -> Seq<char> {
    seq!['.', '.']
}

/// The last component among `parts` that is neither empty nor `.`.
pub open spec fn last_component(parts: Seq<Seq<char>>) -> Option<Seq<char>>
    decreases parts.len(),
{
    if parts.len() == 0 {
        None
    } else if parts.last().len() == 0 || parts.last() == dot() {
        last_component(parts.drop_last())
    } else {
        Some(parts.last())
    }
}

/// `Path::file_name`: the last component, unless it is `..` or there is none.
pub open spec fn file_name(path: Seq<char>) -> Option<Seq<char>> {
    match last_component(split_on(path, '/')) {
        Some(c) => if c == dot_dot() {
            None
        } else {
            Some(c)
        },
        None => None,
    }
}

/// The index of the last `.` in `s`, or -1.
pub open spec fn last_dot(s: Seq<char>) -> int
    decreases s.len(),
{
    if s.len() == 0 {
        -1
    } else if s.last() == '.' {
        s.len() - 1
    } else {
        last_dot(s.drop_last())
    }
}

/// The extension of a file name: the text after its last dot, unless the
/// name has no dot or only a leading one.
pub open spec fn name_extension(name: Seq<char>) -> Option<Seq<char>> {
    if last_dot(name) <= 0 {
        None
    } else {
        Some(name.skip(last_dot(name) + 1))
    }
}

/// The stem of a file name: the text before its last dot, or the whole name
/// when it has no dot or only a leading one.
pub open spec fn name_stem(name: Seq<char>) -> Seq<char> {
    if last_dot(name) <= 0 {
        name
    } else {
        name.take(last_dot(name))
    }
}

/// `Path::extension`.
pub open spec fn extension(path: Seq<char>) -> Option<Seq<char>> {
    match file_name(path) {
        Some(n) => name_extension(n),
        None => None,
    }
}

/// `Path::file_stem`.
pub open spec fn file_stem(path: Seq<char>) -> Option<Seq<char>> {
    match file_name(path) {
        Some(n) => Some(name_stem(n)),
        None => None,
    }
}

proof fn lemma_last_dot_range(s: Seq<char>)
    ensures
        -1 <= last_dot(s) < s.len(),
        last_dot(s) >= 0 ==> s[last_dot(s)] == '.',
    decreases s.len(),
{
    if s.len() > 0 && s.last() != '.' {
        lemma_last_dot_range(s.drop_last());
    }
}

/// The file name of a path (`Path::file_name`).
pub fn path_file_name(path: &str) -> (r: Option<String>)
    ensures
        match r {
            Some(n) => file_name(path@) == Some(n@),
            None => file_name(path@) is None,
        },
{
    let v = chars_of(path);
    let parts = split_on_char(&v, '/');
    let ghost pv = string_views(parts@);
    let mut k = parts.len();
    assert(pv.take(k as int) =~= pv);
    while k > 0
        invariant
            0 <= k <= parts.len(),
            pv == string_views(parts@),
            pv == split_on(path@, '/'),
            last_component(pv) == last_component(pv.take(k as int)),
        decreases k,
    {
        let part = &parts[k - 1];
        let pc = chars_of(part.as_str());
        let ghost t = pv.take(k as int);
        assert(t.last() == part@);
        assert(t.drop_last() =~= pv.take(k - 1));
        if pc.len() == 0 || (pc.len() == 1 && pc[0] == '.') {
            assert(pc.len() == 1 && pc[0] == '.' ==> part@ =~= dot());
            k -= 1;
        } else {
            assert(part@ != dot()) by {
                if part@ == dot() {
                    assert(pc@.len() == 1);
                }
            }
            let is_parent = pc.len() == 2 && pc[0] == '.' && pc[1] == '.';
            if is_parent {
                assert(part@ =~= dot_dot());
                return None;
            } else {
                assert(part@ != dot_dot()) by {
                    if part@ == dot_dot() {
                        assert(pc@ == dot_dot());
                    }
                }
                return Some(part.clone());
            }
        }
    }
    assert(pv.take(0) =~= Seq::<Seq<char>>::empty());
    None
}

/// The index of the last `.` in a name, if any.
fn last_dot_index(v: &Vec<char>) -> (r: Option<usize>)
    ensures
        match r {
            Some(i) => i as int == last_dot(v@),
            None => last_dot(v@) == -1,
        },
{
    let mut k = v.len();
    assert(v@.take(k as int) =~= v@);
    while k > 0
        invariant
            0 <= k <= v.len(),
            last_dot(v@) == last_dot(v@.take(k as int)),
        decreases k,
    {
        let ghost t = v@.take(k as int);
        assert(t.drop_last() =~= v@.take(k - 1));
        if v[k - 1] == '.' {
            return Some(k - 1);
        }
        k -= 1;
    }
    assert(v@.take(0) =~= Seq::<char>::empty());
    None
}

/// The extension of a file name.
pub fn name_extension_of(name: &str) -> (r: Option<String>)
    ensures
        match r {
            Some(e) => name_extension(name@) == Some(e@),
            None => name_extension(name@) is None,
        },
{
    let v = chars_of(name);
    proof {
        lemma_last_dot_range(v@);
    }
    match last_dot_index(&v) {
        Some(i) => if i == 0 {
            None
        } else {
            Some(string_from_chars(&v, i + 1, v.len()))
        },
        None => None,
    }
}

/// The stem of a file name.
pub fn name_stem_of(name: &str) -> (r: String)
    ensures
        r@ == name_stem(name@),
{
    let v = chars_of(name);
    proof {
        lemma_last_dot_range(v@);
    }
    match last_dot_index(&v) {
        Some(i) => if i == 0 {
            String::from_str(name)
        } else {
            string_from_chars(&v, 0, i)
        },
        None => String::from_str(name),
    }
}

/// `Path::extension`.
pub fn path_extension(path: &str) -> (r: Option<String>)
    ensures
        match r {
            Some(e) => extension(path@) == Some(e@),
            None => extension(path@) is None,
        },
{
    match path_file_name(path) {
        Some(n) => name_extension_of(n.as_str()),
        None => None,
    }
}

/// `Path::file_stem`.
pub fn path_file_stem(path: &str) -> (r: Option<String>)
    ensures
        match r {
            Some(s) => file_stem(path@) == Some(s@),
            None => file_stem(path@) is None,
        },
{
    match path_file_name(path) {
        Some(n) => Some(name_stem_of(n.as_str())),
        None => None,
    }
}

/// The file name of a path, or `unknown` when it has none.
pub open spec fn filename_or_unknown(path: Seq<char>) -> Seq<char> {
    match file_name(path) {
        Some(n) => n,
        None => "unknown"@,
    }
}

/// Glue code for file operations
pub struct FileUtils;

impl FileUtils {
    /// Get filename from path
    pub fn filename(path: &str) -> (r: String)
        ensures
            r@ == filename_or_unknown(path@),
    {
        match path_file_name(path) {
            Some(n) => n,
            None => String::from_str("unknown"),
        }
    }

    /// Whether a path's extension is exactly `pdf` (what `find_pdfs` keeps
    /// among the files it finds).
    pub fn has_pdf_extension(path: &str) -> (b: bool)
        ensures
            b == (extension(path@) == Some("pdf"@)),
    {
        proof {
            reveal_strlit("pdf");
        }
        match path_extension(path) {
            Some(e) => str_eq(e.as_str(), "pdf"),
            None => false,
        }
    }
}

} // verus!
