//! Cleaning and normalization of extracted text.
use vstd::prelude::*;
use crate::pattern::{replace_matches, Matcher};
use crate::strings::{
    chars_of, is_u32_literal, is_white_space, is_whitespace, join, join_strings, lines, lines_of,
    parses_as_u32, push_char, replace_char, replace_char_str, string_views, to_owned, trim,
    trim_str,
};
use crate::unicode::{alphanumeric, is_alphanumeric, nfkc, nfkc_form};

verus! {

pub open spec fn whitespace_pattern() -> Seq<char> {
    "\\s+"@
}

pub open spec fn url_pattern() -> Seq<char> {
    "https?://[^\\s]+"@
}

pub open spec fn email_pattern() -> Seq<char> {
    "[a-zA-Z0-9._%+-]+@[a-zA-Z0-9.-]+\\.[a-zA-Z]{2,}"@
}

pub open spec fn hyphenation_pattern() -> Seq<char> {
    "(\\w)-\\n(\\w)"@
}

/// Words split across a line break by a hyphen are joined.
pub open spec fn dehyphenated(t: Seq<char>) -> Seq<char> {
    replace_matches(hyphenation_pattern(), t, "$1$2"@)
}

/// NFKC-normalized, dehyphenated, whitespace runs collapsed to one space, trimmed.
pub open spec fn cleaned(t: Seq<char>) -> Seq<char> {
    trim(replace_matches(whitespace_pattern(), dehyphenated(nfkc_form(t)), " "@))
}

/// Punctuation kept by `remove_special_chars`.
pub open spec fn kept_punctuation(c: char) -> bool {
    c == '.' || c == ',' || c == '!' || c == '?' || c == ';' || c == ':' || c == '\'' || c == '"'
        || c == '-' || c == '(' || c == ')' || c == '[' || c == ']' || c == '{' || c == '}'
}

pub open spec fn allowed_char(c: char) -> bool {
    alphanumeric(c) || is_white_space(c) || kept_punctuation(c)
}

/// The characters of `t` that are alphanumeric, whitespace or kept punctuation.
pub open spec fn without_special_chars(t: Seq<char>) -> Seq<char>
    decreases t.len(),
{
    if t.len() == 0 {
        seq![]
    } else if allowed_char(t.last()) {
        without_special_chars(t.drop_last()).push(t.last())
    } else {
        without_special_chars(t.drop_last())
    }
}

/// URLs, then e-mail addresses, removed.
pub open spec fn without_links(t: Seq<char>) -> Seq<char> {
    replace_matches(email_pattern(), replace_matches(url_pattern(), t, ""@), ""@)
}

/// Whether a line is kept by `remove_artifacts`: its trimmed text is neither
/// empty nor a page number (a `u32`).
pub open spec fn is_content_line(l: Seq<char>) -> bool {
    !parses_as_u32(trim(l)) && trim(l).len() > 0
}

pub open spec fn content_lines(ls: Seq<Seq<char>>) -> Seq<Seq<char>>
    decreases ls.len(),
{
    if ls.len() == 0 {
        seq![]
    } else if is_content_line(ls.last()) {
        content_lines(ls.drop_last()).push(ls.last())
    } else {
        content_lines(ls.drop_last())
    }
}

/// The lines of `t` that are content lines, joined with `\n`.
pub open spec fn without_artifacts(t: Seq<char>) -> Seq<char> {
    join(content_lines(lines(t)), "\n"@)
}

/// Curly quotes become straight quotes; em and en dashes become `-`.
pub open spec fn punctuation_normalized(t: Seq<char>) -> Seq<char> {
    let t1 = replace_char(t, '\u{201C}', "\""@);
    let t2 = replace_char(t1, '\u{201D}', "\""@);
    let t3 = replace_char(t2, '\u{2018}', "'"@);
    let t4 = replace_char(t3, '\u{2019}', "'"@);
    let t5 = replace_char(t4, '\u{2014}', "-"@);
    replace_char(t5, '\u{2013}', "-"@)
}

/// The full cleaning pipeline.
pub open spec fn fully_cleaned(t: Seq<char>) -> Seq<char> {
    cleaned(punctuation_normalized(without_artifacts(without_links(t))))
}

/// Law: the full cleaning pipeline first removes URLs (`https?://[^\s]+`),
/// then e-mail addresses (`[a-zA-Z0-9._%+-]+@[a-zA-Z0-9.-]+\.[a-zA-Z]{2,}`),
/// then drops artifact lines, normalizes punctuation, and finally cleans.
pub proof fn lemma_full_clean_pipeline(t: Seq<char>)
    ensures
        fully_cleaned(t) == cleaned(
            punctuation_normalized(
                without_artifacts(
                    replace_matches(
                        "[a-zA-Z0-9._%+-]+@[a-zA-Z0-9.-]+\\.[a-zA-Z]{2,}"@,
                        replace_matches("https?://[^\\s]+"@, t, ""@),
                        ""@,
                    ),
                ),
            ),
        ),
{
}

/// Cleans and normalizes text extracted from PDFs and books
pub struct TextCleaner {
    extra_whitespace: Matcher,
    urls: Matcher,
    emails: Matcher,
    hyphenation: Matcher,
}

impl TextCleaner {
    #[verifier::type_invariant]
    closed spec fn inv(&self) -> bool {
        &&& self.extra_whitespace.source() == whitespace_pattern()
        &&& self.urls.source() == url_pattern()
        &&& self.emails.source() == email_pattern()
        &&& self.hyphenation.source() == hyphenation_pattern()
    }

    /// The patterns of whitespace runs, URLs, e-mail addresses and
    /// hyphenated line breaks.
    pub closed spec fn patterns(&self) -> (Seq<char>, Seq<char>, Seq<char>, Seq<char>) {
        (
            self.extra_whitespace.source(),
            self.urls.source(),
            self.emails.source(),
            self.hyphenation.source(),
        )
    }

    /// A cleaner with its four patterns compiled.
    pub fn new() -> (c: Self)
        ensures
            c.patterns() == (whitespace_pattern(), url_pattern(), email_pattern(), hyphenation_pattern()),
    {
        TextCleaner {
            extra_whitespace: Matcher::new("\\s+"),
            urls: Matcher::new("https?://[^\\s]+"),
            emails: Matcher::new("[a-zA-Z0-9._%+-]+@[a-zA-Z0-9.-]+\\.[a-zA-Z]{2,}"),
            hyphenation: Matcher::new("(\\w)-\\n(\\w)"),
        }
    }

    /// Clean text by removing extra whitespace, normalizing unicode, etc.
    pub fn clean(&self, text: &str) -> (r: String)
        ensures
            r@ == cleaned(text@),
    {
        proof {
            use_type_invariant(self);
        }
        let normalized = nfkc(text);
        let dehyphenated = self.fix_hyphenation(normalized.as_str());
        let collapsed = self.extra_whitespace.replace_all(dehyphenated.as_str(), " ");
        trim_str(collapsed.as_str())
    }

    /// Remove special characters while preserving sentence structure
    pub fn remove_special_chars(&self, text: &str) -> (r: String)
        ensures
            r@ == without_special_chars(text@),
    {
        let v = chars_of(text);
        let mut r = String::new();
        let mut i: usize = 0;
        assert(v@.take(0) =~= Seq::<char>::empty());
        while i < v.len()
            invariant
                0 <= i <= v.len(),
                v@ == text@,
                r@ == without_special_chars(v@.take(i as int)),
            decreases v.len() - i,
        {
            let c = v[i];
            assert(v@.take(i + 1).drop_last() =~= v@.take(i as int));
            let punct = c == '.' || c == ',' || c == '!' || c == '?' || c == ';' || c == ':' || c
                == '\'' || c == '"' || c == '-' || c == '(' || c == ')' || c == '[' || c == ']'
                || c == '{' || c == '}';
            if is_alphanumeric(c) || is_whitespace(c) || punct {
                push_char(&mut r, c);
            }
            i += 1;
        }
        assert(v@.take(v.len() as int) =~= v@);
        r
    }

    /// Remove URLs and email addresses
    pub fn remove_links(&self, text: &str) -> (r: String)
        ensures
            r@ == without_links(text@),
    {
        proof {
            use_type_invariant(self);
        }
        let text = self.urls.replace_all(text, "");
        self.emails.replace_all(text.as_str(), "")
    }

    /// Fix words split across line breaks (hyphenation)
    pub fn fix_hyphenation(&self, text: &str) -> (r: String)
        ensures
            r@ == dehyphenated(text@),
    {
        proof {
            use_type_invariant(self);
        }
        self.hyphenation.replace_all(text, "$1$2")
    }

    /// Remove common PDF artifacts: empty lines and lines holding only a
    /// page number.
    pub fn remove_artifacts(&self, text: &str) -> (r: String)
        ensures
            r@ == without_artifacts(text@),
    {
        let all = lines_of(text);
        let mut kept: Vec<String> = Vec::new();
        let mut i: usize = 0;
        assert(string_views(all@).take(0) =~= Seq::<Seq<char>>::empty());
        while i < all.len()
            invariant
                0 <= i <= all.len(),
                string_views(all@) == lines(text@),
                string_views(kept@) == content_lines(string_views(all@).take(i as int)),
            decreases all.len() - i,
        {
            let line = &all[i];
            let ghost av = string_views(all@);
            assert(av.take(i + 1).drop_last() =~= av.take(i as int));
            assert(av.take(i + 1).last() == line@);
            let trimmed = trim_str(line.as_str());
            let tv = chars_of(trimmed.as_str());
            if !is_u32_literal(&tv) && tv.len() > 0 {
                let ghost kv = string_views(kept@);
                kept.push(line.clone());
                assert(string_views(kept@) =~= kv.push(line@));
            }
            i += 1;
        }
        assert(string_views(all@).take(all.len() as int) =~= string_views(all@));
        join_strings(&kept, "\n")
    }

    /// Normalize quotes and dashes
    pub fn normalize_punctuation(&self, text: &str) -> (r: String)
        ensures
            r@ == punctuation_normalized(text@),
    {
        let result = replace_char_str(text, '\u{201C}', "\"");
        let result = replace_char_str(result.as_str(), '\u{201D}', "\"");
        let result = replace_char_str(result.as_str(), '\u{2018}', "'");
        let result = replace_char_str(result.as_str(), '\u{2019}', "'");
        let result = replace_char_str(result.as_str(), '\u{2014}', "-");
        replace_char_str(result.as_str(), '\u{2013}', "-")
    }

    /// Full cleaning pipeline
    pub fn full_clean(&self, text: &str) -> (r: String)
        ensures
            r@ == fully_cleaned(text@),
    {
        let text = self.remove_links(text);
        let text = self.remove_artifacts(text.as_str());
        let text = self.normalize_punctuation(text.as_str());
        self.clean(text.as_str())
    }
}

} // verus!
