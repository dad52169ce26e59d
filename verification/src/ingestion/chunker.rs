//! Splitting text into overlapping chunks for embedding.
use vstd::prelude::*;
use vstd::string::*;
use crate::byte_offsets::{byte_len, byte_length};
use crate::ingestion::tokenizer::{sentences, token_count, Tokenizer};
use crate::pattern::{match_spans, match_texts, Matcher};
use crate::strings::{
    decimal, join, join_strings, push_decimal, push_str, split_on_str, split_str,
    split_whitespace, string_views, to_owned, words,
};
use crate::types::metadata::{is_rfc3339_utc, Metadata};

verus! {

/// Configuration for text chunking
#[derive(Debug)]
pub struct ChunkerConfig {
    pub chunk_size: usize,
    pub overlap: usize,
    pub min_chunk_size: usize,
}

impl Clone for ChunkerConfig {
    fn clone(&self) -> (r: Self)
        ensures
            r == *self,
    {
        ChunkerConfig {
            chunk_size: self.chunk_size,
            overlap: self.overlap,
            min_chunk_size: self.min_chunk_size,
        }
    }
}

impl Default for ChunkerConfig {
    /// 512-token chunks with a 64-token overlap and a 50-token minimum.
    fn default() -> (c: Self)
        ensures
            c.chunk_size == 512,
            c.overlap == 64,
            c.min_chunk_size == 50,
    {
        ChunkerConfig { chunk_size: 512, overlap: 64, min_chunk_size: 50 }
    }
}

/// A text chunk with metadata
#[derive(Debug, Clone)]
pub struct Chunk {
    pub id: String,
    pub document_id: String,
    pub content: String,
    pub chunk_index: usize,
    pub total_chunks: usize,
    pub start_char: usize,
    pub end_char: usize,
    pub token_count: usize,
    pub metadata: Metadata,
}

/// `chunks` with `text` added when it has at least `min` tokens.
pub open spec fn emit(chunks: Seq<Seq<char>>, text: Seq<char>, min: int) -> Seq<Seq<char>> {
    if token_count(text) >= min {
        chunks.push(text)
    } else {
        chunks
    }
}

/// The longest suffix of `segs` whose token counts add up to at most `budget`.
pub open spec fn overlap_tail(segs: Seq<Seq<char>>, budget: int) -> Seq<Seq<char>>
    decreases segs.len(),
{
    if segs.len() == 0 {
        seq![]
    } else if budget < token_count(segs.last()) {
        seq![]
    } else {
        overlap_tail(segs.drop_last(), budget - token_count(segs.last())).push(segs.last())
    }
}

/// Greedy accumulation of `segs[i..]` into chunks of at most `max` tokens
/// (counted segment by segment), where each new chunk starts with the
/// overlap tail of the previous one. `current` holds the segments of the open
/// chunk (with `cur_tokens` tokens) and `chunks` the chunks closed so far;
/// chunks with fewer than `min` tokens are dropped.
pub open spec fn accumulate_from(
    segs: Seq<Seq<char>>,
    i: int,
    max: int,
    overlap: int,
    min: int,
    current: Seq<Seq<char>>,
    cur_tokens: int,
    chunks: Seq<Seq<char>>,
) -> Seq<Seq<char>>
    decreases segs.len() - i,
{
    if i >= segs.len() || i < 0 {
        if current.len() > 0 {
            emit(chunks, join(current, " "@), min)
        } else {
            chunks
        }
    } else {
        let st = token_count(segs[i]);
        if cur_tokens + st > max && current.len() > 0 {
            let next = overlap_tail(current, overlap).push(segs[i]);
            accumulate_from(
                segs,
                i + 1,
                max,
                overlap,
                min,
                next,
                token_count(join(next, " "@)) as int,
                emit(chunks, join(current, " "@), min),
            )
        } else {
            accumulate_from(
                segs,
                i + 1,
                max,
                overlap,
                min,
                current.push(segs[i]),
                cur_tokens + st,
                chunks,
            )
        }
    }
}

/// The chunks accumulated from `segs`.
pub open spec fn accumulated(segs: Seq<Seq<char>>, max: int, overlap: int, min: int) -> Seq<
    Seq<char>,
> {
    accumulate_from(segs, 0, max, overlap, min, seq![], 0, seq![])
}

/// Recursive character splitting: a text within `max` tokens is one chunk
/// (when it has at least `min` tokens); a longer text is accumulated from its
/// paragraphs, else its sentences, else its words.
pub open spec fn split_text(text: Seq<char>, max: int, overlap: int, min: int) -> Seq<Seq<char>> {
    let n = token_count(text);
    if n <= max {
        if n >= min {
            seq![text]
        } else {
            seq![]
        }
    } else if split_str(text, "\n\n"@).len() > 1 {
        accumulated(split_str(text, "\n\n"@), max, overlap, min)
    } else if sentences(text).len() > 1 {
        accumulated(sentences(text), max, overlap, min)
    } else {
        accumulated(words(text), max, overlap, min)
    }
}

/// Every chunk has at least `min` tokens.
pub open spec fn all_at_least(chunks: Seq<Seq<char>>, min: int) -> bool {
    forall|i: int| 0 <= i < chunks.len() ==> token_count(#[trigger] chunks[i]) >= min
}

/// Accumulation keeps only chunks with at least `min` tokens.
pub proof fn lemma_accumulate_min(
    segs: Seq<Seq<char>>,
    i: int,
    max: int,
    overlap: int,
    min: int,
    current: Seq<Seq<char>>,
    cur_tokens: int,
    chunks: Seq<Seq<char>>,
)
    requires
        all_at_least(chunks, min),
    ensures
        all_at_least(accumulate_from(segs, i, max, overlap, min, current, cur_tokens, chunks), min),
    decreases segs.len() - i,
{
    if i >= segs.len() || i < 0 {
        if current.len() > 0 {
            lemma_emit_min(chunks, join(current, " "@), min);
        }
    } else {
        let st = token_count(segs[i]);
        if cur_tokens + st > max && current.len() > 0 {
            let next = overlap_tail(current, overlap).push(segs[i]);
            lemma_emit_min(chunks, join(current, " "@), min);
            lemma_accumulate_min(
                segs,
                i + 1,
                max,
                overlap,
                min,
                next,
                token_count(join(next, " "@)) as int,
                emit(chunks, join(current, " "@), min),
            );
        } else {
            lemma_accumulate_min(
                segs,
                i + 1,
                max,
                overlap,
                min,
                current.push(segs[i]),
                cur_tokens + st,
                chunks,
            );
        }
    }
}

proof fn lemma_emit_min(chunks: Seq<Seq<char>>, text: Seq<char>, min: int)
    requires
        all_at_least(chunks, min),
    ensures
        all_at_least(emit(chunks, text, min), min),
{
    if token_count(text) >= min {
        assert forall|i: int| 0 <= i < chunks.len() + 1 implies token_count(
            #[trigger] chunks.push(text)[i],
        ) >= min by {
            if i < chunks.len() {
                assert(chunks.push(text)[i] == chunks[i]);
            }
        }
    }
}

/// Law: every chunk produced by recursive splitting has at least `min` tokens.
pub proof fn lemma_split_text_min(text: Seq<char>, max: int, overlap: int, min: int)
    ensures
        all_at_least(split_text(text, max, overlap, min), min),
{
    let n = token_count(text);
    if n <= max {
        if n >= min {
            assert(seq![text][0] == text);
        }
    } else if split_str(text, "\n\n"@).len() > 1 {
        lemma_accumulate_min(split_str(text, "\n\n"@), 0, max, overlap, min, seq![], 0, seq![]);
    } else if sentences(text).len() > 1 {
        lemma_accumulate_min(sentences(text), 0, max, overlap, min, seq![], 0, seq![]);
    } else {
        lemma_accumulate_min(words(text), 0, max, overlap, min, seq![], 0, seq![]);
    }
}

/// `c` is the `' '`-join of a non-empty run of consecutive pieces of `segs`.
pub open spec fn joins_consecutive(c: Seq<char>, segs: Seq<Seq<char>>) -> bool {
    exists|lo: int, hi: int| 0 <= lo < hi <= segs.len() && c == join(segs.subrange(lo, hi), " "@)
}

/// Every chunk is the `' '`-join of a run of consecutive pieces of `segs`.
pub open spec fn all_join_consecutive(chunks: Seq<Seq<char>>, segs: Seq<Seq<char>>) -> bool {
    forall|k: int| 0 <= k < chunks.len() ==> joins_consecutive(#[trigger] chunks[k], segs)
}

/// The overlap tail of `s` is a suffix of `s`.
proof fn lemma_overlap_tail_suffix(s: Seq<Seq<char>>, budget: int)
    ensures
        overlap_tail(s, budget).len() <= s.len(),
        overlap_tail(s, budget) == s.subrange(s.len() - overlap_tail(s, budget).len(), s.len() as int),
    decreases s.len(),
{
    if s.len() == 0 {
        assert(s.subrange(0, 0) =~= Seq::<Seq<char>>::empty());
    } else if budget < token_count(s.last()) {
        assert(s.subrange(s.len() as int, s.len() as int) =~= Seq::<Seq<char>>::empty());
    } else {
        let p = s.drop_last();
        lemma_overlap_tail_suffix(p, budget - token_count(s.last()));
        let t = overlap_tail(p, budget - token_count(s.last()));
        assert(t.push(s.last()) =~= s.subrange(s.len() - (t.len() + 1), s.len() as int));
    }
}

proof fn lemma_emit_consecutive(chunks: Seq<Seq<char>>, segs: Seq<Seq<char>>, lo: int, hi: int, min: int)
    requires
        all_join_consecutive(chunks, segs),
        0 <= lo < hi <= segs.len(),
    ensures
        all_join_consecutive(emit(chunks, join(segs.subrange(lo, hi), " "@), min), segs),
{
    let c = join(segs.subrange(lo, hi), " "@);
    if token_count(c) >= min {
        assert forall|k: int| 0 <= k < chunks.push(c).len() implies joins_consecutive(
            #[trigger] chunks.push(c)[k],
            segs,
        ) by {
            if k < chunks.len() {
                assert(chunks.push(c)[k] == chunks[k]);
            } else {
                assert(chunks.push(c)[k] == c);
            }
        }
    }
}

/// Accumulation emits only joins of consecutive runs of the pieces.
proof fn lemma_accumulate_consecutive(
    segs: Seq<Seq<char>>,
    i: int,
    lo: int,
    max: int,
    overlap: int,
    min: int,
    current: Seq<Seq<char>>,
    cur_tokens: int,
    chunks: Seq<Seq<char>>,
)
    requires
        0 <= lo <= i <= segs.len(),
        current == segs.subrange(lo, i),
        all_join_consecutive(chunks, segs),
    ensures
        all_join_consecutive(accumulate_from(segs, i, max, overlap, min, current, cur_tokens, chunks), segs),
    decreases segs.len() - i,
{
    if i >= segs.len() {
        if current.len() > 0 {
            lemma_emit_consecutive(chunks, segs, lo, i, min);
        }
    } else {
        let st = token_count(segs[i]);
        if cur_tokens + st > max && current.len() > 0 {
            let tail = overlap_tail(current, overlap);
            lemma_overlap_tail_suffix(current, overlap);
            let lo2 = i - tail.len();
            assert(tail =~= segs.subrange(lo2, i));
            let next = tail.push(segs[i]);
            assert(next =~= segs.subrange(lo2, i + 1));
            lemma_emit_consecutive(chunks, segs, lo, i, min);
            lemma_accumulate_consecutive(
                segs,
                i + 1,
                lo2,
                max,
                overlap,
                min,
                next,
                token_count(join(next, " "@)) as int,
                emit(chunks, join(current, " "@), min),
            );
        } else {
            assert(current.push(segs[i]) =~= segs.subrange(lo, i + 1));
            lemma_accumulate_consecutive(
                segs,
                i + 1,
                lo,
                max,
                overlap,
                min,
                current.push(segs[i]),
                cur_tokens + st,
                chunks,
            );
        }
    }
}

/// Law: a text over the chunk size that has no paragraph break but more than
/// one sentence is cut only between sentences: every chunk is the `' '`-join
/// of consecutive whole sentences of the text.
pub proof fn lemma_sentence_chunks_whole(text: Seq<char>, max: int, overlap: int, min: int)
    requires
        token_count(text) > max,
        split_str(text, "\n\n"@).len() <= 1,
        sentences(text).len() > 1,
    ensures
        forall|k: int|
            0 <= k < split_text(text, max, overlap, min).len() ==> joins_consecutive(
                #[trigger] split_text(text, max, overlap, min)[k],
                sentences(text),
            ),
{
    assert(sentences(text).subrange(0, 0) =~= Seq::<Seq<char>>::empty());
    lemma_accumulate_consecutive(sentences(text), 0, 0, max, overlap, min, seq![], 0, seq![]);
}

/// `a + b`, saturating at `usize::MAX`.
pub open spec fn sat_add(a: int, b: int) -> int {
    if a + b <= usize::MAX {
        a + b
    } else {
        usize::MAX as int
    }
}

/// The identifier of chunk `i` of document `doc`: `chunk_{doc}_{i}`.
pub open spec fn chunk_id(doc: Seq<char>, i: nat) -> Seq<char> {
    "chunk_"@ + doc + "_"@ + decimal(i)
}

/// The chapter-heading pattern: a line starting with `chapter N`, `N. X`
/// or `part`/`section N` (case-insensitive, multi-line).
pub open spec fn chapter_heading_pattern() -> Seq<char> {
    r"((?im)^chapter\s+(\d+|[ivxlcdm]+)[\s:.]|(?im)^(\d+)\.\s+[A-Z]|(?im)^(part|section)\s+(\d+|[ivxlcdm]+)[\s:.])"@
}

/// Splits text into overlapping chunks for embedding
pub struct TextChunker {
    config: ChunkerConfig,
    tokenizer: Tokenizer,
}

impl TextChunker {
    /// The configuration the chunker was made with.
    pub closed spec fn config(&self) -> ChunkerConfig {
        self.config
    }

    pub fn new(config: ChunkerConfig) -> (c: Self)
        ensures
            c.config() == config,
    {
        TextChunker { config, tokenizer: Tokenizer::new() }
    }

    /// Split text into chunks using recursive character splitting. Every
    /// chunk has at least `min_chunk_size` tokens.
    pub fn chunk(&self, text: &str) -> (r: Vec<String>)
        ensures
            string_views(r@) == split_text(
                text@,
                self.config().chunk_size as int,
                self.config().overlap as int,
                self.config().min_chunk_size as int,
            ),
            forall|i: int|
                0 <= i < r@.len() ==> token_count(#[trigger] r@[i]@)
                    >= self.config().min_chunk_size,
    {
        let r = self.recursive_split(text, self.config.chunk_size, self.config.overlap);
        proof {
            lemma_split_text_min(
                text@,
                self.config.chunk_size as int,
                self.config.overlap as int,
                self.config.min_chunk_size as int,
            );
            assert forall|i: int| 0 <= i < r@.len() implies token_count(#[trigger] r@[i]@)
                >= self.config().min_chunk_size by {
                assert(string_views(r@)[i] == r@[i]@);
            }
        }
        r
    }

    /// Split text into chunks at sentence boundaries. Every chunk has at
    /// least `min_chunk_size` tokens.
    pub fn chunk_by_sentences(&self, text: &str) -> (r: Vec<String>)
        ensures
            string_views(r@) == accumulated(
                sentences(text@),
                self.config().chunk_size as int,
                self.config().overlap as int,
                self.config().min_chunk_size as int,
            ),
            forall|i: int|
                0 <= i < r@.len() ==> token_count(#[trigger] r@[i]@)
                    >= self.config().min_chunk_size,
    {
        let sentence_list = self.tokenizer.tokenize_sentences(text);
        let r = self.accumulate_chunks(&sentence_list, self.config.chunk_size, self.config.overlap);
        proof {
            lemma_accumulate_min(
                sentences(text@),
                0,
                self.config.chunk_size as int,
                self.config.overlap as int,
                self.config.min_chunk_size as int,
                seq![],
                0,
                seq![],
            );
            assert forall|i: int| 0 <= i < r@.len() implies token_count(#[trigger] r@[i]@)
                >= self.config().min_chunk_size by {
                assert(string_views(r@)[i] == r@[i]@);
            }
        }
        r
    }

    /// Split text and return chunks with full metadata. Chunk `i` holds the
    /// `i`-th chunk of `chunk`, its index, the number of chunks, its token
    /// count, and the byte range it would occupy if the chunks were laid end
    /// to end (saturating at `usize::MAX`).
    pub fn chunk_with_metadata(&self, text: &str, doc_id: &str) -> (r: Vec<Chunk>)
        ensures
            ({
                let contents = split_text(
                    text@,
                    self.config().chunk_size as int,
                    self.config().overlap as int,
                    self.config().min_chunk_size as int,
                );
                &&& r@.len() == contents.len()
                &&& forall|i: int|
                    0 <= i < r@.len() ==> {
                        &&& (#[trigger] r@[i]).content@ == contents[i]
                        &&& r@[i].id@ == chunk_id(doc_id@, i as nat)
                        &&& r@[i].document_id@ == doc_id@
                        &&& r@[i].chunk_index == i
                        &&& r@[i].total_chunks == r@.len()
                        &&& r@[i].token_count == token_count(contents[i])
                        &&& r@[i].start_char == (if i == 0 {
                            0
                        } else {
                            r@[i - 1].end_char as int
                        })
                        &&& r@[i].end_char == sat_add(
                            r@[i].start_char as int,
                            byte_len(contents[i]) as int,
                        )
                        &&& r@[i].metadata.source_type@ == "pdf"@
                        &&& r@[i].metadata.tags@.len() == 0
                        &&& r@[i].metadata.created_at@ == r@[i].metadata.updated_at@
                        &&& is_rfc3339_utc(r@[i].metadata.created_at@)
                    }
            }),
    {
        let text_chunks = self.chunk(text);
        let ghost contents = string_views(text_chunks@);
        let total_chunks = text_chunks.len();
        let mut current_pos: usize = 0;
        let mut chunks: Vec<Chunk> = Vec::new();
        let mut i: usize = 0;
        while i < text_chunks.len()
            invariant
                0 <= i <= text_chunks.len(),
                total_chunks == text_chunks.len(),
                contents == string_views(text_chunks@),
                chunks@.len() == i,
                current_pos == (if i == 0 {
                    0
                } else {
                    chunks@[i - 1].end_char as int
                }),
                forall|j: int|
                    0 <= j < i ==> {
                        &&& (#[trigger] chunks@[j]).content@ == contents[j]
                        &&& chunks@[j].id@ == chunk_id(doc_id@, j as nat)
                        &&& chunks@[j].document_id@ == doc_id@
                        &&& chunks@[j].chunk_index == j
                        &&& chunks@[j].total_chunks == total_chunks
                        &&& chunks@[j].token_count == token_count(contents[j])
                        &&& chunks@[j].start_char == (if j == 0 {
                            0
                        } else {
                            chunks@[j - 1].end_char as int
                        })
                        &&& chunks@[j].end_char == sat_add(
                            chunks@[j].start_char as int,
                            byte_len(contents[j]) as int,
                        )
                        &&& chunks@[j].metadata.source_type@ == "pdf"@
                        &&& chunks@[j].metadata.tags@.len() == 0
                        &&& chunks@[j].metadata.created_at@ == chunks@[j].metadata.updated_at@
                        &&& is_rfc3339_utc(chunks@[j].metadata.created_at@)
                    },
            decreases text_chunks.len() - i,
        {
            let content = &text_chunks[i];
            let start_char = current_pos;
            let len = byte_length(content.as_str());
            let end_char = match current_pos.checked_add(len) {
                Some(e) => e,
                None => usize::MAX,
            };
            let token_count = self.tokenizer.count_tokens(content.as_str());
            let mut id = String::from_str("chunk_");
            push_str(&mut id, doc_id);
            push_str(&mut id, "_");
            push_decimal(&mut id, i);
            proof {
                reveal_strlit("pdf");
            }
            let chunk = Chunk {
                id,
                document_id: to_owned(doc_id),
                content: content.clone(),
                chunk_index: i,
                total_chunks,
                start_char,
                end_char,
                token_count,
                metadata: Metadata::default(),
            };
            chunks.push(chunk);
            current_pos = end_char;
            i += 1;
        }
        chunks
    }

    /// Detect chapter boundaries in text: the byte offset and text of each
    /// chapter heading.
    pub fn detect_chapters(&self, text: &str) -> (r: Vec<(usize, String)>)
        ensures
            r@.len() == match_spans(chapter_heading_pattern(), text@).len(),
            forall|i: int|
                0 <= i < r@.len() ==> (#[trigger] r@[i]).0 == match_spans(
                    chapter_heading_pattern(),
                    text@,
                )[i].0 && r@[i].1@ == match_texts(chapter_heading_pattern(), text@)[i],
    {
        let re = Matcher::new(
            r"((?im)^chapter\s+(\d+|[ivxlcdm]+)[\s:.]|(?im)^(\d+)\.\s+[A-Z]|(?im)^(part|section)\s+(\d+|[ivxlcdm]+)[\s:.])",
        );
        let spans = re.find_byte_spans(text);
        let texts = re.find_texts(text);
        let mut chapters: Vec<(usize, String)> = Vec::new();
        let mut i: usize = 0;
        while i < spans.len()
            invariant
                0 <= i <= spans.len(),
                spans@.len() == texts@.len(),
                spans@.len() == match_spans(chapter_heading_pattern(), text@).len(),
                re.source() == chapter_heading_pattern(),
                forall|m: int|
                    0 <= m < spans@.len() ==> (#[trigger] spans@[m]).0 as int == match_spans(
                        chapter_heading_pattern(),
                        text@,
                    )[m].0,
                forall|m: int|
                    0 <= m < texts@.len() ==> (#[trigger] texts@[m])@ == match_texts(
                        chapter_heading_pattern(),
                        text@,
                    )[m],
                chapters@.len() == i,
                forall|m: int|
                    0 <= m < i ==> (#[trigger] chapters@[m]).0 == spans@[m].0 && chapters@[m].1@
                        == texts@[m]@,
            decreases spans.len() - i,
        {
            chapters.push((spans[i].0, texts[i].clone()));
            i += 1;
        }
        chapters
    }

    /// Recursive character splitting algorithm
    fn recursive_split(&self, text: &str, max_tokens: usize, overlap: usize) -> (r: Vec<String>)
        ensures
            string_views(r@) == split_text(
                text@,
                max_tokens as int,
                overlap as int,
                self.config().min_chunk_size as int,
            ),
    {
        let n = self.tokenizer.count_tokens(text);
        if n <= max_tokens {
            if n >= self.config.min_chunk_size {
                let mut r: Vec<String> = Vec::new();
                r.push(to_owned(text));
                assert(string_views(r@) =~= seq![text@]);
                return r;
            } else {
                let r: Vec<String> = Vec::new();
                assert(string_views(r@) =~= Seq::<Seq<char>>::empty());
                return r;
            }
        }
        // Try splitting on paragraphs

        proof {
            reveal_strlit("\n\n");
        }
        let paragraphs = split_on_str(text, "\n\n");
        if paragraphs.len() > 1 {
            return self.accumulate_chunks(&paragraphs, max_tokens, overlap);
        }
        // Try splitting on sentences

        let sentence_list = self.tokenizer.tokenize_sentences(text);
        if sentence_list.len() > 1 {
            return self.accumulate_chunks(&sentence_list, max_tokens, overlap);
        }
        // Fall back to word splitting

        let word_list = split_whitespace(text);
        self.accumulate_chunks(&word_list, max_tokens, overlap)
    }

    /// Accumulate segments into chunks respecting token limits
    fn accumulate_chunks(&self, segments: &Vec<String>, max_tokens: usize, overlap: usize) -> (r:
        Vec<String>)
        ensures
            string_views(r@) == accumulated(
                string_views(segments@),
                max_tokens as int,
                overlap as int,
                self.config().min_chunk_size as int,
            ),
    {
        let ghost segs = string_views(segments@);
        let ghost min = self.config.min_chunk_size as int;
        let mut chunks: Vec<String> = Vec::new();
        let mut current: Vec<String> = Vec::new();
        let mut current_tokens: usize = 0;
        let mut i: usize = 0;
        assert(string_views(chunks@) =~= Seq::<Seq<char>>::empty());
        assert(string_views(current@) =~= Seq::<Seq<char>>::empty());
        while i < segments.len()
            invariant
                0 <= i <= segments.len(),
                segs == string_views(segments@),
                min == self.config().min_chunk_size as int,
                accumulated(segs, max_tokens as int, overlap as int, min) == accumulate_from(
                    segs,
                    i as int,
                    max_tokens as int,
                    overlap as int,
                    min,
                    string_views(current@),
                    current_tokens as int,
                    string_views(chunks@),
                ),
                current@.len() == 0 ==> current_tokens == 0,
            decreases segments.len() - i,
        {
            let segment = &segments[i];
            let segment_tokens = self.tokenizer.count_tokens(segment.as_str());
            assert(segs[i as int] == segment@);
            let exceeds = match current_tokens.checked_add(segment_tokens) {
                Some(total) => total > max_tokens,
                None => true,
            };
            if exceeds && current.len() > 0 {
                // Save current chunk
                let chunk_text = join_strings(&current, " ");
                let ghost cv = string_views(chunks@);
                if self.tokenizer.count_tokens(chunk_text.as_str()) >= self.config.min_chunk_size {
                    chunks.push(chunk_text);
                    assert(string_views(chunks@) =~= cv.push(chunk_text@));
                }
                // Start new chunk with overlap

                let mut next = self.get_overlap_segments(&current, overlap);
                let ghost nv = string_views(next@);
                next.push(segment.clone());
                assert(string_views(next@) =~= nv.push(segment@));
                current = next;
                let joined = join_strings(&current, " ");
                current_tokens = self.tokenizer.count_tokens(joined.as_str());
            } else {
                let ghost cv = string_views(current@);
                current.push(segment.clone());
                assert(string_views(current@) =~= cv.push(segment@));
                current_tokens = current_tokens + segment_tokens;
            }
            i += 1;
        }
        // Add remaining segments

        if current.len() > 0 {
            let chunk_text = join_strings(&current, " ");
            let ghost cv = string_views(chunks@);
            if self.tokenizer.count_tokens(chunk_text.as_str()) >= self.config.min_chunk_size {
                chunks.push(chunk_text);
                assert(string_views(chunks@) =~= cv.push(chunk_text@));
            }
        }
        chunks
    }

    /// Get overlap segments from the end of current chunk
    fn get_overlap_segments(&self, segments: &Vec<String>, overlap_tokens: usize) -> (r: Vec<
        String,
    >)
        ensures
            string_views(r@) == overlap_tail(string_views(segments@), overlap_tokens as int),
    {
        let ghost segs = string_views(segments@);
        let mut start = segments.len();
        let mut tokens: usize = 0;
        assert(segs.subrange(start as int, segs.len() as int) =~= Seq::<Seq<char>>::empty());
        assert(segs.take(start as int) =~= segs);
        assert(segs.len() == 0 ==> overlap_tail(segs, overlap_tokens as int) =~= segs.subrange(
            0,
            0,
        ));
        while start > 0
            invariant_except_break
                start == 0 ==> overlap_tail(segs, overlap_tokens as int) == segs.subrange(
                    start as int,
                    segs.len() as int,
                ),
            invariant
                0 <= start <= segments.len(),
                tokens <= overlap_tokens,
                segs == string_views(segments@),
                overlap_tail(segs, overlap_tokens as int) == overlap_tail(
                    segs.take(start as int),
                    overlap_tokens - tokens,
                ) + segs.subrange(start as int, segs.len() as int),
            ensures
                0 <= start <= segments.len(),
                segs == string_views(segments@),
                overlap_tail(segs, overlap_tokens as int) == segs.subrange(
                    start as int,
                    segs.len() as int,
                ),
            decreases start,
        {
            let segment_tokens = self.tokenizer.count_tokens(segments[start - 1].as_str());
            let ghost pre = segs.take(start as int);
            assert(pre.last() == segments@[start - 1]@);
            assert(pre.drop_last() =~= segs.take(start - 1));
            let fits = match tokens.checked_add(segment_tokens) {
                Some(total) => total <= overlap_tokens,
                None => false,
            };
            if !fits {
                assert(overlap_tail(pre, overlap_tokens - tokens) =~= Seq::<Seq<char>>::empty());
                assert(overlap_tail(segs, overlap_tokens as int) =~= segs.subrange(
                    start as int,
                    segs.len() as int,
                ));
                break;
            }
            proof {
                let b = overlap_tokens - tokens;
                let rest = overlap_tail(pre.drop_last(), b - segment_tokens);
                assert(overlap_tail(pre, b) == rest.push(pre.last()));
                assert(rest.push(pre.last()) + segs.subrange(start as int, segs.len() as int) =~= rest
                    + segs.subrange(start - 1, segs.len() as int));
                if start == 1 {
                    assert(segs.take(0) =~= Seq::<Seq<char>>::empty());
                    assert(rest =~= Seq::<Seq<char>>::empty());
                    assert(rest + segs.subrange(0, segs.len() as int) =~= segs.subrange(
                        0,
                        segs.len() as int,
                    ));
                }
            }
            tokens = tokens + segment_tokens;
            start = start - 1;
        }
        let mut overlap: Vec<String> = Vec::new();
        let mut j = start;
        assert(string_views(overlap@) =~= segs.subrange(start as int, start as int));
        while j < segments.len()
            invariant
                start <= j <= segments.len(),
                segs == string_views(segments@),
                string_views(overlap@) == segs.subrange(start as int, j as int),
            decreases segments.len() - j,
        {
            let ghost ov = string_views(overlap@);
            overlap.push(segments[j].clone());
            assert(string_views(overlap@) =~= ov.push(segments@[j as int]@));
            assert(segs.subrange(start as int, j + 1) =~= segs.subrange(start as int, j as int).push(
                segs[j as int],
            ));
            j += 1;
        }
        overlap
    }
}

} // verus!
