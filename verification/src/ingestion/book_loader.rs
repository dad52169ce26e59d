//! Multi-format book loading: the format, title, chapter and text-extraction
//! logic. Reading files and directories is left to the caller.
use vstd::prelude::*;
use vstd::string::*;
use crate::pattern::{match_char_spans, match_texts, replace_matches, Matcher};
use crate::strings::{
    chars_of, is_ascii_graphic, is_ascii_graphic_char, is_ascii_white_space, is_ascii_whitespace,
    lines, lines_of, match_at, occurs_at, push_char, push_str, replace_char, string_from_chars,
    string_views, to_owned, trim, trim_chars, trim_str,
};
use crate::types::metadata::{is_rfc3339_utc, now_rfc3339};
use crate::unicode::{from_utf8_lossy, lossy_decode, lowercase_form, to_lowercase};
use crate::utils::errors::AppError;
use crate::utils::fs::{
    extension, file_name, file_stem, filename_or_unknown, path_extension, path_file_name,
    path_file_stem, FileUtils,
};
use crate::utils::ids::{is_v4_uuid_text, new_v4_text};

verus! {

/// Supported book formats
#[derive(Debug, Clone, Copy, PartialEq, Eq, Structural)]
pub enum BookFormat {
    Pdf,
    Epub,
    Scanned,
}

/// Content extracted from a book
#[derive(Debug, Clone)]
pub struct BookContent {
    pub id: String,
    pub title: String,
    pub author: Option<String>,
    pub format: BookFormat,
    pub chapters: Vec<Chapter>,
    pub raw_text: String,
    pub metadata: BookMetadata,
}

/// A single chapter in a book
#[derive(Debug, Clone)]
pub struct Chapter {
    pub index: usize,
    pub title: String,
    pub content: String,
    pub page_start: Option<usize>,
    pub page_end: Option<usize>,
}

/// Metadata about the book file. `created_at` is an RFC 3339 time.
#[derive(Debug, Clone)]
pub struct BookMetadata {
    pub filename: String,
    pub file_size: u64,
    pub page_count: Option<usize>,
    pub created_at: String,
}

// ---------------------------------------------------------------- format detection

/// The image extensions of scanned pages.
pub open spec fn is_image_extension(e: Seq<char>) -> bool {
    e == "png"@ || e == "jpg"@ || e == "jpeg"@ || e == "tiff"@ || e == "tif"@ || e == "bmp"@
}

/// The lower-cased extension of a path, empty when it has none.
pub open spec fn lowercase_extension(path: Seq<char>) -> Seq<char> {
    match extension(path) {
        Some(e) => lowercase_form(e),
        None => seq![],
    }
}

/// The format of a (non-directory) path by its extension, if supported.
pub open spec fn format_of(path: Seq<char>) -> Option<BookFormat> {
    let e = lowercase_extension(path);
    if e == "pdf"@ {
        Some(BookFormat::Pdf)
    } else if e == "epub"@ {
        Some(BookFormat::Epub)
    } else if is_image_extension(e) {
        Some(BookFormat::Scanned)
    } else {
        None
    }
}

/// Law: a (non-directory) path is a PDF when its lower-cased extension is
/// `pdf`, an EPUB when it is `epub`, a scanned page when it is one of `png`,
/// `jpg`, `jpeg`, `tiff`, `tif`, `bmp`, and unsupported otherwise.
pub proof fn lemma_format_by_extension(path: Seq<char>)
    ensures
        lowercase_extension(path) == "pdf"@ ==> format_of(path) == Some(BookFormat::Pdf),
        lowercase_extension(path) == "epub"@ ==> format_of(path) == Some(BookFormat::Epub),
        ({
            let e = lowercase_extension(path);
            e == "png"@ || e == "jpg"@ || e == "jpeg"@ || e == "tiff"@ || e == "tif"@ || e == "bmp"@
        }) ==> format_of(path) == Some(BookFormat::Scanned),
        format_of(path) is Some ==> ({
            let e = lowercase_extension(path);
            e == "pdf"@ || e == "epub"@ || e == "png"@ || e == "jpg"@ || e == "jpeg"@ || e == "tiff"@
                || e == "tif"@ || e == "bmp"@
        }),
{
    reveal_strlit("pdf");
    reveal_strlit("epub");
    reveal_strlit("png");
    reveal_strlit("jpg");
    reveal_strlit("jpeg");
    reveal_strlit("tiff");
    reveal_strlit("tif");
    reveal_strlit("bmp");
    assert("epub"@.len() != "pdf"@.len());
    assert("png"@[1] != "pdf"@[1]);
    assert("jpg"@[0] != "pdf"@[0] && "jpeg"@.len() != "pdf"@.len() && "tiff"@.len() != "pdf"@.len());
    assert("tif"@[0] != "pdf"@[0] && "bmp"@[0] != "pdf"@[0]);
    assert("png"@.len() != "epub"@.len() && "jpg"@.len() != "epub"@.len() && "jpeg"@[0] != "epub"@[0]);
    assert("tiff"@[0] != "epub"@[0] && "tif"@.len() != "epub"@.len() && "bmp"@.len() != "epub"@.len());
}

// ---------------------------------------------------------------- titles

/// `s` with every `_` and `-` replaced by a space.
pub open spec fn spaces_for_separators(s: Seq<char>) -> Seq<char> {
    Seq::new(s.len(), |i: int| if s[i] == '_' || s[i] == '-' { ' ' } else { s[i] })
}

/// The title of a file: its stem (or the whole name when it has none) with
/// `_` and `-` shown as spaces.
pub open spec fn title_of(filename: Seq<char>) -> Seq<char> {
    let stem = match file_stem(filename) {
        Some(s) => s,
        None => filename,
    };
    spaces_for_separators(stem)
}

// ---------------------------------------------------------------- chapters

/// The chapter-heading pattern used for books: `chapter N` anywhere, or at
/// the start of the text `N. X` or `part`/`section N` (case-insensitive).
pub open spec fn book_heading_pattern() -> Seq<char> {
    r"((?i)chapter\s+(\d+|[ivxlcdm]+)[\s:.]|(?i)^(\d+)\.\s+[A-Z]|(?i)^(part|section)\s+(\d+|[ivxlcdm]+)[\s:.])"@
}

/// The trimmed text from heading `i` to the next heading (or the end).
pub open spec fn section_text(text: Seq<char>, spans: Seq<(int, int)>, i: int) -> Seq<char> {
    let end = if i + 1 < spans.len() {
        spans[i + 1].0
    } else {
        text.len() as int
    };
    trim(text.subrange(spans[i].0, end))
}

/// `(index, title, content)` of the chapters among the first `n` headings:
/// a heading whose section is empty after trimming gives no chapter.
pub open spec fn chapter_entries(
    text: Seq<char>,
    spans: Seq<(int, int)>,
    titles: Seq<Seq<char>>,
    n: int,
) -> Seq<(int, Seq<char>, Seq<char>)>
    decreases n,
{
    if n <= 0 {
        seq![]
    } else {
        let prev = chapter_entries(text, spans, titles, n - 1);
        let c = section_text(text, spans, n - 1);
        if c.len() > 0 {
            prev.push((n - 1, titles[n - 1], c))
        } else {
            prev
        }
    }
}

/// The chapters of a text; the whole text is one chapter, `Full Text`, when
/// no heading starts a non-empty section.
pub open spec fn book_chapters(text: Seq<char>) -> Seq<(int, Seq<char>, Seq<char>)> {
    let spans = match_char_spans(book_heading_pattern(), text);
    let entries = chapter_entries(text, spans, match_texts(book_heading_pattern(), text), spans.len() as int);
    if entries.len() > 0 {
        entries
    } else {
        seq![(0, "Full Text"@, text)]
    }
}

/// Law: every book has at least one chapter.
pub proof fn lemma_book_has_chapter(text: Seq<char>)
    ensures
        book_chapters(text).len() >= 1,
{
}

/// Law: a title shows no `_` or `-`.
pub proof fn lemma_title_has_no_separators(filename: Seq<char>)
    ensures
        forall|i: int| 0 <= i < title_of(filename).len() ==> #[trigger] title_of(filename)[i] != '_'
            && title_of(filename)[i] != '-',
{
}

pub open spec fn chapter_view(c: Chapter) -> (int, Seq<char>, Seq<char>) {
    (c.index as int, c.title@, c.content@)
}

// ---------------------------------------------------------------- text extraction

/// Whether `pat` occurs anywhere in `s`.
pub open spec fn contains(s: Seq<char>, pat: Seq<char>) -> bool {
    exists|i: int| occurs_at(s, pat, i)
}

/// Every character is ASCII graphic or ASCII whitespace.
pub open spec fn is_printable_ascii(s: Seq<char>) -> bool {
    forall|i: int|
        0 <= i < s.len() ==> is_ascii_graphic_char(#[trigger] s[i]) || is_ascii_white_space(s[i])
}

/// The text of lines `i..` of a PDF: a line mentioning `stream` opens a
/// stream section, one mentioning `endstream` closes it, and every other
/// printable ASCII line inside a stream section is kept, followed by a space.
pub open spec fn stream_text(ls: Seq<Seq<char>>, i: int, in_stream: bool) -> Seq<char>
    decreases ls.len() - i,
{
    if i >= ls.len() || i < 0 {
        seq![]
    } else if contains(ls[i], "stream"@) {
        stream_text(ls, i + 1, true)
    } else if contains(ls[i], "endstream"@) {
        stream_text(ls, i + 1, false)
    } else if in_stream && is_printable_ascii(ls[i]) {
        ls[i] + seq![' '] + stream_text(ls, i + 1, in_stream)
    } else {
        stream_text(ls, i + 1, in_stream)
    }
}

/// The text recovered from the bytes of a PDF.
pub open spec fn pdf_text(bytes: Seq<u8>) -> Seq<char> {
    stream_text(lines(lossy_decode(bytes)), 0, false)
}

pub open spec fn tag_pattern() -> Seq<char> {
    "<[^>]*>"@
}

pub open spec fn whitespace_run_pattern() -> Seq<char> {
    "\\s+"@
}

/// Markup tags replaced by spaces, then whitespace runs collapsed to one space.
pub open spec fn untagged(s: Seq<char>) -> Seq<char> {
    replace_matches(whitespace_run_pattern(), replace_matches(tag_pattern(), s, " "@), " "@)
}

/// Characters kept from EPUB text: ASCII graphic, ASCII whitespace, non-ASCII.
pub open spec fn kept_epub_char(c: char) -> bool {
    is_ascii_graphic_char(c) || is_ascii_white_space(c) || (c as u32) > 127
}

pub open spec fn epub_kept(s: Seq<char>) -> Seq<char>
    decreases s.len(),
{
    if s.len() == 0 {
        seq![]
    } else if kept_epub_char(s.last()) {
        epub_kept(s.drop_last()).push(s.last())
    } else {
        epub_kept(s.drop_last())
    }
}

/// The text recovered from the bytes of an EPUB.
pub open spec fn epub_text(bytes: Seq<u8>) -> Seq<char> {
    epub_kept(untagged(lossy_decode(bytes)))
}

/// Multi-format book loader supporting PDF, EPUB, and scanned documents
pub struct BookLoader;

impl BookLoader {
    /// Detect book format from file extension (case-insensitive). Directories
    /// are scanned books; the caller recognises them before asking here.
    pub fn detect_format(path: &str) -> (r: Result<BookFormat, AppError>)
        ensures
            match format_of(path@) {
                Some(f) => r == Ok::<BookFormat, AppError>(f),
                None => r matches Err(AppError::Ingestion(m)) && m@ == "Unsupported file format: "@
                    + lowercase_extension(path@),
            },
    {
        let ext = match path_extension(path) {
            Some(e) => to_lowercase(e.as_str()),
            None => String::new(),
        };
        let e = ext.as_str();
        proof {
            reveal_strlit("pdf");
            reveal_strlit("epub");
            reveal_strlit("png");
            reveal_strlit("jpg");
            reveal_strlit("jpeg");
            reveal_strlit("tiff");
            reveal_strlit("tif");
            reveal_strlit("bmp");
        }
        if str_eq(e, "pdf") {
            Ok(BookFormat::Pdf)
        } else if str_eq(e, "epub") {
            Ok(BookFormat::Epub)
        } else if str_eq(e, "png") || str_eq(e, "jpg") || str_eq(e, "jpeg") || str_eq(e, "tiff")
            || str_eq(e, "tif") || str_eq(e, "bmp") {
            Ok(BookFormat::Scanned)
        } else {
            let mut m = String::from_str("Unsupported file format: ");
            push_str(&mut m, e);
            Err(AppError::Ingestion(m))
        }
    }

    /// The paths among `entries` (each a path and whether it is a file) that
    /// are files with a supported book extension, in order.
    pub fn find_book_files(entries: &Vec<(String, bool)>) -> (r: Vec<String>)
        ensures
            string_views(r@) == supported_files(entries@),
    {
        let mut files: Vec<String> = Vec::new();
        let mut i: usize = 0;
        assert(entries@.take(0) =~= Seq::<(String, bool)>::empty());
        while i < entries.len()
            invariant
                0 <= i <= entries.len(),
                string_views(files@) == supported_files(entries@.take(i as int)),
            decreases entries.len() - i,
        {
            let (path, is_file) = &entries[i];
            assert(entries@.take(i + 1).drop_last() =~= entries@.take(i as int));
            assert(entries@.take(i + 1).last() == entries@[i as int]);
            if *is_file && Self::detect_format(path.as_str()).is_ok() {
                let ghost fv = string_views(files@);
                files.push(path.clone());
                assert(string_views(files@) =~= fv.push(path@));
            }
            i += 1;
        }
        assert(entries@.take(entries.len() as int) =~= entries@);
        files
    }

    /// Build the content of a loaded book from its file name, size, format
    /// and extracted text; the book gets a fresh random id and the current
    /// time.
    pub fn build_content(filename: String, file_size: u64, format: BookFormat, raw_text: String) -> (r:
        BookContent)
        ensures
            is_v4_uuid_text(r.id@),
            r.title@ == title_of(filename@),
            r.author is None,
            r.format == format,
            r.chapters@.len() == book_chapters(raw_text@).len(),
            forall|i: int|
                0 <= i < r.chapters@.len() ==> chapter_view(#[trigger] r.chapters@[i])
                    == book_chapters(raw_text@)[i] && r.chapters@[i].page_start is None
                    && r.chapters@[i].page_end is None,
            r.raw_text@ == raw_text@,
            r.metadata.filename@ == filename@,
            r.metadata.file_size == file_size,
            r.metadata.page_count is None,
            is_rfc3339_utc(r.metadata.created_at@),
    {
        let title = Self::extract_title_from_filename(filename.as_str());
        let chapters = Self::detect_chapters_from_text(raw_text.as_str());
        BookContent {
            id: new_v4_text(),
            title,
            author: None,
            format,
            chapters,
            raw_text,
            metadata: BookMetadata {
                filename,
                file_size,
                page_count: None,
                created_at: now_rfc3339(),
            },
        }
    }

    /// The name under which a scanned book is recorded: a directory's last
    /// component (`scanned_book` when it has none), else the file name.
    pub fn scanned_filename(path: &str, is_dir: bool) -> (r: String)
        ensures
            r@ == (if is_dir {
                match file_name(path@) {
                    Some(n) => n,
                    None => "scanned_book"@,
                }
            } else {
                filename_or_unknown(path@)
            }),
    {
        if is_dir {
            match path_file_name(path) {
                Some(n) => n,
                None => String::from_str("scanned_book"),
            }
        } else {
            FileUtils::filename(path)
        }
    }

    /// Extract text using pdfium-render: not configured, always an error.
    pub fn extract_with_pdfium(_path: &str) -> (r: Result<String, AppError>)
        ensures
            r matches Err(AppError::PdfProcessing(m)) && m@ == "pdfium not configured"@,
    {
        Err(AppError::PdfProcessing(String::from_str("pdfium not configured")))
    }

    /// Fallback PDF text extraction from the file's bytes: the printable
    /// lines of its stream sections; an error when nothing but whitespace
    /// is found.
    pub fn extract_pdf_fallback(bytes: &[u8]) -> (r: Result<String, AppError>)
        ensures
            trim(pdf_text(bytes@)).len() == 0 ==> (r matches Err(AppError::PdfProcessing(m))
                && m@ == "Could not extract text from PDF"@),
            trim(pdf_text(bytes@)).len() > 0 ==> (r matches Ok(t) && t@ == pdf_text(bytes@)),
    {
        let text = from_utf8_lossy(bytes);
        let ls = lines_of(text.as_str());
        let ghost lv = string_views(ls@);
        let mut result = String::new();
        let mut in_stream = false;
        let mut i: usize = 0;
        proof {
            reveal_strlit("stream");
            reveal_strlit("endstream");
        }
        let stream_word = chars_of("stream");
        let endstream_word = chars_of("endstream");
        while i < ls.len()
            invariant
                0 <= i <= ls.len(),
                lv == string_views(ls@),
                lv == lines(lossy_decode(bytes@)),
                stream_word@ == "stream"@,
                endstream_word@ == "endstream"@,
                pdf_text(bytes@) == result@ + stream_text(lv, i as int, in_stream),
            decreases ls.len() - i,
        {
            let line = chars_of(ls[i].as_str());
            assert(line@ == lv[i as int]);
            if contains_chars(&line, &stream_word) {
                in_stream = true;
            } else if contains_chars(&line, &endstream_word) {
                in_stream = false;
            } else if in_stream && printable_ascii(&line) {
                let ghost before = result@;
                push_str(&mut result, ls[i].as_str());
                push_char(&mut result, ' ');
                assert(before + (lv[i as int] + seq![' '] + stream_text(lv, i + 1, in_stream))
                    =~= result@ + stream_text(lv, i + 1, in_stream));
            }
            i += 1;
        }
        assert(result@ + Seq::<char>::empty() =~= result@);
        let trimmed = trim_str(result.as_str());
        if trimmed.as_str().is_empty() {
            return Err(AppError::PdfProcessing(String::from_str("Could not extract text from PDF")));
        }
        Ok(result)
    }

    /// EPUB text extraction from the file's bytes: markup removed, whitespace
    /// collapsed, control characters dropped; an error when nothing but
    /// whitespace is left.
    pub fn extract_epub_text(bytes: &[u8]) -> (r: Result<String, AppError>)
        ensures
            trim(epub_text(bytes@)).len() == 0 ==> (r matches Err(AppError::Ingestion(m)) && m@
                == "Could not extract text from EPUB"@),
            trim(epub_text(bytes@)).len() > 0 ==> (r matches Ok(t) && t@ == epub_text(bytes@)),
    {
        let content = from_utf8_lossy(bytes);
        let final_text = Self::untag(content.as_str());
        let v = chars_of(final_text.as_str());
        let mut result = String::new();
        let mut i: usize = 0;
        assert(v@.take(0) =~= Seq::<char>::empty());
        while i < v.len()
            invariant
                0 <= i <= v.len(),
                result@ == epub_kept(v@.take(i as int)),
            decreases v.len() - i,
        {
            let c = v[i];
            assert(v@.take(i + 1).drop_last() =~= v@.take(i as int));
            if is_ascii_graphic(c) || is_ascii_whitespace(c) || (c as u32) > 127 {
                push_char(&mut result, c);
            }
            i += 1;
        }
        assert(v@.take(v.len() as int) =~= v@);
        let trimmed = trim_str(result.as_str());
        if trimmed.as_str().is_empty() {
            return Err(AppError::Ingestion(String::from_str("Could not extract text from EPUB")));
        }
        Ok(result)
    }

    /// Tags replaced by spaces and whitespace runs collapsed.
    fn untag(s: &str) -> (r: String)
        ensures
            r@ == untagged(s@),
    {
        let tags = Matcher::new("<[^>]*>");
        let without_tags = tags.replace_all(s, " ");
        let ws = Matcher::new("\\s+");
        ws.replace_all(without_tags.as_str(), " ")
    }

    /// Strip HTML tags from text
    pub fn strip_html_tags(html: &str) -> (r: String)
        ensures
            r@ == trim(untagged(html@)),
    {
        let t = Self::untag(html);
        trim_str(t.as_str())
    }

    /// Extract text from scanned documents using OCR: not available, always
    /// an error.
    pub fn extract_scanned_text(_path: &str) -> (r: Result<String, AppError>)
        ensures
            r matches Err(AppError::Ingestion(m)) && m@ == "OCR processing not yet implemented. Install ocrs crate and implement OcrProcessor for scanned document support."@,
    {
        Err(
            AppError::Ingestion(
                String::from_str(
                    "OCR processing not yet implemented. Install ocrs crate and implement OcrProcessor for scanned document support.",
                ),
            ),
        )
    }

    /// Extract title from filename (remove extension and clean up)
    pub fn extract_title_from_filename(filename: &str) -> (r: String)
        ensures
            r@ == title_of(filename@),
    {
        let stem = match path_file_stem(filename) {
            Some(s) => s,
            None => to_owned(filename),
        };
        let v = chars_of(stem.as_str());
        let mut r = String::new();
        let mut i: usize = 0;
        while i < v.len()
            invariant
                0 <= i <= v.len(),
                r@ == spaces_for_separators(v@).take(i as int),
            decreases v.len() - i,
        {
            let c = v[i];
            let d = if c == '_' || c == '-' {
                ' '
            } else {
                c
            };
            push_char(&mut r, d);
            assert(spaces_for_separators(v@).take(i + 1) =~= spaces_for_separators(v@).take(
                i as int,
            ).push(d));
            i += 1;
        }
        assert(spaces_for_separators(v@).take(v.len() as int) =~= spaces_for_separators(v@));
        r
    }

    /// Detect chapters from text content
    pub fn detect_chapters_from_text(text: &str) -> (r: Vec<Chapter>)
        ensures
            r@.len() == book_chapters(text@).len(),
            forall|i: int|
                0 <= i < r@.len() ==> chapter_view(#[trigger] r@[i]) == book_chapters(text@)[i]
                    && r@[i].page_start is None && r@[i].page_end is None,
    {
        let re = Matcher::new(
            r"((?i)chapter\s+(\d+|[ivxlcdm]+)[\s:.]|(?i)^(\d+)\.\s+[A-Z]|(?i)^(part|section)\s+(\d+|[ivxlcdm]+)[\s:.])",
        );
        let v = chars_of(text);
        let spans = re.find_char_spans(&v, text);
        let titles = re.find_texts(text);
        let ghost sp = match_char_spans(book_heading_pattern(), text@);
        let ghost tt = match_texts(book_heading_pattern(), text@);
        let mut chapters: Vec<Chapter> = Vec::new();
        let mut i: usize = 0;
        while i < spans.len()
            invariant
                0 <= i <= spans.len(),
                v@ == text@,
                spans@.len() == sp.len(),
                titles@.len() == tt.len(),
                tt.len() == sp.len(),
                sp == match_char_spans(book_heading_pattern(), text@),
                tt == match_texts(book_heading_pattern(), text@),
                forall|m: int|
                    0 <= m < spans@.len() ==> (#[trigger] spans@[m]).0 as int == sp[m].0
                        && spans@[m].1 as int == sp[m].1 && spans@[m].0 <= spans@[m].1 <= v@.len(),
                forall|m: int| 0 <= m < spans@.len() - 1 ==> (#[trigger] spans@[m]).1 <= spans@[m + 1].0,
                forall|m: int| 0 <= m < titles@.len() ==> (#[trigger] titles@[m])@ == tt[m],
                chapters@.len() == chapter_entries(text@, sp, tt, i as int).len(),
                forall|m: int|
                    0 <= m < chapters@.len() ==> chapter_view(#[trigger] chapters@[m])
                        == chapter_entries(text@, sp, tt, i as int)[m] && chapters@[m].page_start is None
                        && chapters@[m].page_end is None,
            decreases spans.len() - i,
        {
            let start = spans[i].0;
            let end = if i + 1 < spans.len() {
                spans[i + 1].0
            } else {
                v.len()
            };
            assert(start <= end) by {
                if i + 1 < spans.len() {
                    assert(spans@[i as int].1 <= spans@[i + 1].0);
                }
            }
            let content = trim_chars(&v, start, end);
            assert(content@ == section_text(text@, sp, i as int));
            if !content.as_str().is_empty() {
                let ghost before = chapters@;
                chapters.push(
                    Chapter {
                        index: i,
                        title: titles[i].clone(),
                        content,
                        page_start: None,
                        page_end: None,
                    },
                );
                assert forall|m: int| 0 <= m < chapters@.len() implies chapter_view(
                    #[trigger] chapters@[m],
                ) == chapter_entries(text@, sp, tt, i + 1)[m] && chapters@[m].page_start is None
                    && chapters@[m].page_end is None by {
                    if m < before.len() {
                        assert(chapters@[m] == before[m]);
                    }
                }
            }
            i += 1;
        }
        if chapters.len() == 0 {
            proof {
                reveal_strlit("Full Text");
            }
            chapters.push(
                Chapter {
                    index: 0,
                    title: String::from_str("Full Text"),
                    content: to_owned(text),
                    page_start: None,
                    page_end: None,
                },
            );
        }
        chapters
    }
}

/// The paths of the entries that are files with a supported book extension.
pub open spec fn supported_files(entries: Seq<(String, bool)>) -> Seq<Seq<char>>
    decreases entries.len(),
{
    if entries.len() == 0 {
        seq![]
    } else {
        let e = entries.last();
        let prev = supported_files(entries.drop_last());
        if e.1 && format_of(e.0@) is Some {
            prev.push(e.0@)
        } else {
            prev
        }
    }
}

/// String equality.
pub fn str_eq(a: &str, b: &str) -> (r: bool)
    ensures
        r == (a@ == b@),
{
    let x = chars_of(a);
    let y = chars_of(b);
    if x.len() != y.len() {
        return false;
    }
    let mut i: usize = 0;
    while i < x.len()
        invariant
            0 <= i <= x.len(),
            x@ == a@,
            y@ == b@,
            x@.len() == y@.len(),
            forall|k: int| 0 <= k < i ==> x@[k] == y@[k],
        decreases x.len() - i,
    {
        if x[i] != y[i] {
            assert(x@[i as int] != y@[i as int]);
            return false;
        }
        i += 1;
    }
    assert(x@ =~= y@);
    true
}

/// Whether `pat` occurs in `s`.
pub fn contains_chars(s: &Vec<char>, pat: &Vec<char>) -> (r: bool)
    ensures
        r == contains(s@, pat@),
{
    let mut i: usize = 0;
    while i < s.len()
        invariant
            0 <= i <= s.len(),
            forall|k: int| 0 <= k < i ==> !occurs_at(s@, pat@, k),
        decreases s.len() - i,
    {
        if match_at(s, pat, i) {
            return true;
        }
        i += 1;
    }
    if match_at(s, pat, s.len()) {
        return true;
    }
    assert forall|k: int| !occurs_at(s@, pat@, k) by {
        if 0 <= k && k < s@.len() {
        }
    }
    false
}

/// Every character is ASCII graphic or ASCII whitespace.
pub fn printable_ascii(s: &Vec<char>) -> (r: bool)
    ensures
        r == is_printable_ascii(s@),
{
    let mut i: usize = 0;
    while i < s.len()
        invariant
            0 <= i <= s.len(),
            forall|k: int|
                0 <= k < i ==> is_ascii_graphic_char(#[trigger] s@[k]) || is_ascii_white_space(s@[k]),
        decreases s.len() - i,
    {
        if !is_ascii_graphic(s[i]) && !is_ascii_whitespace(s[i]) {
            return false;
        }
        i += 1;
    }
    true
}

} // verus!
