//! Fine-tuning dataset records and their generation from text chunks.
pub mod chunk_file;
pub mod schema;

use vstd::prelude::*;
use vstd::string::*;
use crate::byte_offsets::{byte_len, byte_length};
use crate::ingestion::chunker::Chunk;
use crate::strings::{
    chars_of, join, join_strings, push_str, split_on_str, split_str, split_whitespace,
    string_views, to_owned, words,
};
use crate::unicode::{is_uppercase, uppercase};

verus! {

/// Instruction format entry for fine-tuning
#[derive(Debug)]
pub struct InstructionEntry {
    pub instruction: String,
    pub input: Option<String>,
    pub output: String,
    pub source: Option<String>,
    pub chunk_id: Option<String>,
}

/// Q&A format entry
#[derive(Debug)]
pub struct QAEntry {
    pub question: String,
    pub answer: String,
    pub context: Option<String>,
    pub source: Option<String>,
    pub metadata: Option<QAMetadata>,
}

/// Q&A metadata
#[derive(Debug)]
pub struct QAMetadata {
    pub book_title: Option<String>,
    pub chapter: Option<usize>,
    pub chunk_id: Option<String>,
    pub question_type: Option<String>,
}

/// Chat format message
#[derive(Debug)]
pub struct ChatMessage {
    pub role: String,
    pub content: String,
}

/// Chat format entry
#[derive(Debug)]
pub struct ChatEntry {
    pub messages: Vec<ChatMessage>,
}

/// Question-answer pair (internal)
#[derive(Debug, Clone)]
pub struct QAPair {
    pub question: String,
    pub answer: String,
    pub context: String,
    pub source: String,
    pub question_type: String,
}

/// Complete dataset
#[derive(Debug, Clone)]
pub struct Dataset {
    pub instructions: Vec<InstructionEntry>,
    pub qa_pairs: Vec<QAEntry>,
    pub chat_entries: Vec<ChatEntry>,
}

/// Data splits for train/val/test
#[derive(Debug, Clone)]
pub struct DataSplits {
    pub train: Dataset,
    pub validation: Dataset,
    pub test: Dataset,
}

/// Dataset configuration. The train/validation/test ratios are applied by
/// the caller, which hands `generate_splits` the resulting boundaries.
#[derive(Debug, Clone)]
pub struct DatasetConfig {
    pub num_qa_pairs_per_chunk: usize,
    pub min_answer_length: usize,
    pub max_answer_length: usize,
    pub question_types: Vec<String>,
}

impl Default for DatasetConfig {
    fn default() -> (c: Self)
        ensures
            c.num_qa_pairs_per_chunk == 3,
            c.min_answer_length == 20,
            c.max_answer_length == 500,
            string_views(c.question_types@) == seq!["factual"@, "inferential"@, "comparative"@],
    {
        let mut question_types: Vec<String> = Vec::new();
        question_types.push(String::from_str("factual"));
        question_types.push(String::from_str("inferential"));
        question_types.push(String::from_str("comparative"));
        assert(string_views(question_types@) =~= seq!["factual"@, "inferential"@, "comparative"@]);
        DatasetConfig {
            num_qa_pairs_per_chunk: 3,
            min_answer_length: 20,
            max_answer_length: 500,
            question_types,
        }
    }
}

// ---------------------------------------------------------------- copying

fn copy_opt(o: &Option<String>) -> (r: Option<String>)
    ensures
        r == *o,
{
    match o {
        Some(s) => Some(s.clone()),
        None => None,
    }
}

impl Clone for InstructionEntry {
    fn clone(&self) -> (r: Self)
        ensures
            r == *self,
    {
        InstructionEntry {
            instruction: self.instruction.clone(),
            input: copy_opt(&self.input),
            output: self.output.clone(),
            source: copy_opt(&self.source),
            chunk_id: copy_opt(&self.chunk_id),
        }
    }
}

impl Clone for QAMetadata {
    fn clone(&self) -> (r: Self)
        ensures
            r == *self,
    {
        QAMetadata {
            book_title: copy_opt(&self.book_title),
            chapter: self.chapter,
            chunk_id: copy_opt(&self.chunk_id),
            question_type: copy_opt(&self.question_type),
        }
    }
}

impl Clone for QAEntry {
    fn clone(&self) -> (r: Self)
        ensures
            r == *self,
    {
        QAEntry {
            question: self.question.clone(),
            answer: self.answer.clone(),
            context: copy_opt(&self.context),
            source: copy_opt(&self.source),
            metadata: match &self.metadata {
                Some(m) => Some(m.clone()),
                None => None,
            },
        }
    }
}

impl Clone for ChatMessage {
    fn clone(&self) -> (r: Self)
        ensures
            r == *self,
    {
        ChatMessage { role: self.role.clone(), content: self.content.clone() }
    }
}

impl Clone for ChatEntry {
    fn clone(&self) -> (r: Self)
        ensures
            r.messages@ == self.messages@,
    {
        let mut messages: Vec<ChatMessage> = Vec::new();
        let mut i: usize = 0;
        while i < self.messages.len()
            invariant
                0 <= i <= self.messages.len(),
                messages@ == self.messages@.take(i as int),
            decreases self.messages.len() - i,
        {
            messages.push(self.messages[i].clone());
            assert(self.messages@.take(i + 1) =~= self.messages@.take(i as int).push(
                self.messages@[i as int],
            ));
            i += 1;
        }
        assert(self.messages@.take(i as int) =~= self.messages@);
        ChatEntry { messages }
    }
}

fn copy_instructions(v: &Vec<InstructionEntry>, lo: usize, hi: usize) -> (r: Vec<InstructionEntry>)
    requires
        lo <= hi <= v.len(),
    ensures
        r@ == v@.subrange(lo as int, hi as int),
{
    let mut r: Vec<InstructionEntry> = Vec::new();
    let mut i = lo;
    while i < hi
        invariant
            lo <= i <= hi <= v.len(),
            r@ == v@.subrange(lo as int, i as int),
        decreases hi - i,
    {
        r.push(v[i].clone());
        assert(v@.subrange(lo as int, i + 1) =~= v@.subrange(lo as int, i as int).push(v@[i as int]));
        i += 1;
    }
    r
}

fn copy_qa(v: &Vec<QAEntry>, lo: usize, hi: usize) -> (r: Vec<QAEntry>)
    requires
        lo <= hi <= v.len(),
    ensures
        r@ == v@.subrange(lo as int, hi as int),
{
    let mut r: Vec<QAEntry> = Vec::new();
    let mut i = lo;
    while i < hi
        invariant
            lo <= i <= hi <= v.len(),
            r@ == v@.subrange(lo as int, i as int),
        decreases hi - i,
    {
        r.push(v[i].clone());
        assert(v@.subrange(lo as int, i + 1) =~= v@.subrange(lo as int, i as int).push(v@[i as int]));
        i += 1;
    }
    r
}

pub open spec fn chat_view(e: ChatEntry) -> Seq<ChatMessage> {
    e.messages@
}

/// The messages of each chat entry.
pub open spec fn chat_views(s: Seq<ChatEntry>) -> Seq<Seq<ChatMessage>> {
    Seq::new(s.len(), |i: int| chat_view(s[i]))
}

proof fn lemma_chat_views_push(s: Seq<ChatEntry>, e: ChatEntry)
    ensures
        chat_views(s.push(e)) == chat_views(s).push(chat_view(e)),
{
    assert forall|k: int| 0 <= k < s.len() + 1 implies chat_views(s.push(e))[k] == chat_views(
        s,
    ).push(chat_view(e))[k] by {
        if k < s.len() {
            assert(s.push(e)[k] == s[k]);
        }
    }
    assert(chat_views(s.push(e)) =~= chat_views(s).push(chat_view(e)));
}

fn copy_chat(v: &Vec<ChatEntry>, lo: usize, hi: usize) -> (r: Vec<ChatEntry>)
    requires
        lo <= hi <= v.len(),
    ensures
        chat_views(r@) == chat_views(v@.subrange(lo as int, hi as int)),
{
    let mut r: Vec<ChatEntry> = Vec::new();
    let mut i = lo;
    while i < hi
        invariant
            lo <= i <= hi <= v.len(),
            chat_views(r@) == chat_views(v@.subrange(lo as int, i as int)),
        decreases hi - i,
    {
        let c = v[i].clone();
        let ghost before = r@;
        r.push(c);
        proof {
            lemma_chat_views_push(before, c);
            assert(v@.subrange(lo as int, i + 1) =~= v@.subrange(lo as int, i as int).push(
                v@[i as int],
            ));
            lemma_chat_views_push(v@.subrange(lo as int, i as int), v@[i as int]);
        }
        i += 1;
    }
    r
}

// ---------------------------------------------------------------- question generation

/// A generated pair: (question, answer, context, source, question type).
pub type QAView = (Seq<char>, Seq<char>, Seq<char>, Seq<char>, Seq<char>);

pub open spec fn qa_view(p: QAPair) -> QAView {
    (p.question@, p.answer@, p.context@, p.source@, p.question_type@)
}

/// The view of each pair.
pub open spec fn qa_views(s: Seq<QAPair>) -> Seq<QAView> {
    Seq::new(s.len(), |i: int| qa_view(s[i]))
}

proof fn lemma_qa_views_push(s: Seq<QAPair>, p: QAPair)
    ensures
        qa_views(s.push(p)) == qa_views(s).push(qa_view(p)),
{
    assert forall|k: int| 0 <= k < s.len() + 1 implies qa_views(s.push(p))[k] == qa_views(s).push(
        qa_view(p),
    )[k] by {
        if k < s.len() {
            assert(s.push(p)[k] == s[k]);
        }
    }
    assert(qa_views(s.push(p)) =~= qa_views(s).push(qa_view(p)));
}

/// The first word longer than four bytes that starts with an uppercase letter.
pub open spec fn first_term(ws: Seq<Seq<char>>) -> Option<Seq<char>>
    decreases ws.len(),
{
    if ws.len() == 0 {
        None
    } else if byte_len(ws[0]) > 4 && ws[0].len() > 0 && uppercase(ws[0][0]) {
        Some(ws[0])
    } else {
        first_term(ws.drop_first())
    }
}

pub open spec fn min(a: int, b: int) -> int {
    if a < b {
        a
    } else {
        b
    }
}

/// The pairs drawn from sentence `i` of a chunk: for a sentence of at least
/// 20 bytes and more than five words, a factual question about its first
/// capitalized term (if any), and for the first of several sentences an
/// inferential question previewing its first five words, answered by the
/// first three sentences.
pub open spec fn sentence_pairs(content: Seq<char>, id: Seq<char>, sentences: Seq<Seq<char>>, i: int) -> Seq<
    QAView,
> {
    let s = sentences[i];
    let ws = words(s);
    let source = "chunk_"@ + id;
    if byte_len(s) < 20 || ws.len() <= 5 {
        seq![]
    } else {
        let factual: Seq<QAView> = match first_term(ws) {
            Some(t) => seq![("What is "@ + t + "?"@, s, content, source, "factual"@)],
            None => seq![],
        };
        let inferential: Seq<QAView> = if i == 0 && sentences.len() > 1 {
            seq![
                (
                    "Explain the following concept: "@ + join(ws.take(min(5, ws.len() as int)), " "@),
                    join(sentences.take(min(3, sentences.len() as int)), ". "@),
                    content,
                    source,
                    "inferential"@,
                ),
            ]
        } else {
            seq![]
        };
        factual + inferential
    }
}

pub open spec fn pairs_upto(content: Seq<char>, id: Seq<char>, sentences: Seq<Seq<char>>, n: int) -> Seq<
    QAView,
>
    decreases n,
{
    if n <= 0 {
        seq![]
    } else {
        pairs_upto(content, id, sentences, n - 1) + sentence_pairs(content, id, sentences, n - 1)
    }
}

/// The pairs generated from a chunk's content (split into sentences at
/// `". "`), at most `max` of them.
pub open spec fn chunk_pairs(content: Seq<char>, id: Seq<char>, max: int) -> Seq<QAView> {
    let sentences = split_str(content, ". "@);
    let all = pairs_upto(content, id, sentences, sentences.len() as int);
    all.take(min(max, all.len() as int))
}

/// Every inferential pair drawn from the first `n` sentences previews the
/// first five words of the first sentence and is answered by the first three
/// sentences.
proof fn lemma_pairs_upto_inferential(content: Seq<char>, id: Seq<char>, sentences: Seq<Seq<char>>, n: int)
    requires
        n <= sentences.len(),
    ensures
        forall|k: int|
            0 <= k < pairs_upto(content, id, sentences, n).len() && (#[trigger] pairs_upto(
                content,
                id,
                sentences,
                n,
            )[k]).4 == "inferential"@ ==> pairs_upto(content, id, sentences, n)[k].1 == join(
                sentences.take(if sentences.len() < 3 {
                    sentences.len() as int
                } else {
                    3
                }),
                ". "@,
            ) && pairs_upto(content, id, sentences, n)[k].0 == "Explain the following concept: "@
                + join(
                words(sentences[0]).take(
                    if words(sentences[0]).len() < 5 {
                        words(sentences[0]).len() as int
                    } else {
                        5
                    },
                ),
                " "@,
            ),
    decreases n,
{
    reveal_strlit("factual");
    reveal_strlit("inferential");
    if n > 0 {
        lemma_pairs_upto_inferential(content, id, sentences, n - 1);
        let prev = pairs_upto(content, id, sentences, n - 1);
        let cur = sentence_pairs(content, id, sentences, n - 1);
        assert(pairs_upto(content, id, sentences, n) == prev + cur);
        assert("factual"@[0] != "inferential"@[0]);
        assert forall|k: int|
            0 <= k < (prev + cur).len() && (#[trigger] (prev + cur)[k]).4 == "inferential"@ implies (prev
                + cur)[k].1 == join(
                sentences.take(if sentences.len() < 3 {
                    sentences.len() as int
                } else {
                    3
                }),
                ". "@,
            ) && (prev + cur)[k].0 == "Explain the following concept: "@ + join(
                words(sentences[0]).take(
                    if words(sentences[0]).len() < 5 {
                        words(sentences[0]).len() as int
                    } else {
                        5
                    },
                ),
                " "@,
            ) by {
            if k >= prev.len() {
                assert((prev + cur)[k] == cur[k - prev.len()]);
            }
        }
    }
}

/// Law: the inferential pair of a chunk previews the first five words of its
/// first sentence (the content split at `". "`) and is answered by the first
/// three sentences (all of them when fewer), joined with `". "`.
pub proof fn lemma_inferential_answer(content: Seq<char>, id: Seq<char>, max: int)
    requires
        max >= 0,
    ensures
        forall|k: int|
            0 <= k < chunk_pairs(content, id, max).len() && (#[trigger] chunk_pairs(content, id, max)[k]).4
                == "inferential"@ ==> chunk_pairs(content, id, max)[k].1 == join(
                split_str(content, ". "@).take(
                    if split_str(content, ". "@).len() < 3 {
                        split_str(content, ". "@).len() as int
                    } else {
                        3
                    },
                ),
                ". "@,
            ) && chunk_pairs(content, id, max)[k].0 == "Explain the following concept: "@ + join(
                words(split_str(content, ". "@)[0]).take(
                    if words(split_str(content, ". "@)[0]).len() < 5 {
                        words(split_str(content, ". "@)[0]).len() as int
                    } else {
                        5
                    },
                ),
                " "@,
            ),
{
    let sentences = split_str(content, ". "@);
    let all = pairs_upto(content, id, sentences, sentences.len() as int);
    lemma_pairs_upto_inferential(content, id, sentences, sentences.len() as int);
    let r = chunk_pairs(content, id, max);
    assert forall|k: int| 0 <= k < r.len() implies #[trigger] r[k] == all[k] by {}
}

/// Law: a chunk yields at most `max` pairs.
pub proof fn lemma_chunk_pairs_at_most(content: Seq<char>, id: Seq<char>, max: int)
    requires
        max >= 0,
    ensures
        chunk_pairs(content, id, max).len() <= max,
{
}

/// Every pair drawn from the first `n` sentences has the chunk's content as
/// its context and `chunk_{id}` as its source.
proof fn lemma_pairs_upto_origin(content: Seq<char>, id: Seq<char>, sentences: Seq<Seq<char>>, n: int)
    ensures
        forall|k: int|
            0 <= k < pairs_upto(content, id, sentences, n).len() ==> (#[trigger] pairs_upto(
                content,
                id,
                sentences,
                n,
            )[k]).2 == content && pairs_upto(content, id, sentences, n)[k].3 == "chunk_"@ + id,
    decreases n,
{
    if n > 0 {
        lemma_pairs_upto_origin(content, id, sentences, n - 1);
        let prev = pairs_upto(content, id, sentences, n - 1);
        let cur = sentence_pairs(content, id, sentences, n - 1);
        assert forall|k: int| 0 <= k < (prev + cur).len() implies (#[trigger] (prev + cur)[k]).2
            == content && (prev + cur)[k].3 == "chunk_"@ + id by {
            if k >= prev.len() {
                assert((prev + cur)[k] == cur[k - prev.len()]);
            }
        }
    }
}

/// Law: every pair generated from a chunk carries the chunk's content as its
/// context and `chunk_{id}` as its source.
pub proof fn lemma_chunk_pairs_origin(content: Seq<char>, id: Seq<char>, max: int)
    requires
        max >= 0,
    ensures
        forall|k: int|
            0 <= k < chunk_pairs(content, id, max).len() ==> (#[trigger] chunk_pairs(
                content,
                id,
                max,
            )[k]).2 == content && chunk_pairs(content, id, max)[k].3 == "chunk_"@ + id,
{
    let sentences = split_str(content, ". "@);
    let all = pairs_upto(content, id, sentences, sentences.len() as int);
    lemma_pairs_upto_origin(content, id, sentences, sentences.len() as int);
    let r = chunk_pairs(content, id, max);
    assert forall|k: int| 0 <= k < r.len() implies (#[trigger] r[k]).2 == content && r[k].3 == "chunk_"@
        + id by {
        assert(r[k] == all[k]);
    }
}

/// Every pair generated from the chunks, with the id of its chunk.
pub open spec fn dataset_pairs(chunks: Seq<Chunk>, max: int) -> Seq<(Seq<char>, QAView)>
    decreases chunks.len(),
{
    if chunks.len() == 0 {
        seq![]
    } else {
        let c = chunks.last();
        dataset_pairs(chunks.drop_last(), max) + chunk_pairs(c.content@, c.id@, max).map_values(
            |p: QAView| (c.id@, p),
        )
    }
}

pub open spec fn opt_view(o: Option<String>) -> Option<Seq<char>> {
    match o {
        Some(s) => Some(s@),
        None => None,
    }
}

/// The instruction entry made from a pair of chunk `id`.
pub open spec fn instruction_from(e: InstructionEntry, id: Seq<char>, p: QAView) -> bool {
    &&& e.instruction@ == p.0
    &&& opt_view(e.input) == Some(p.2)
    &&& e.output@ == p.1
    &&& opt_view(e.source) == Some(p.3)
    &&& opt_view(e.chunk_id) == Some(id)
}

/// The Q&A entry made from a pair of chunk `id`.
pub open spec fn qa_entry_from(e: QAEntry, id: Seq<char>, p: QAView) -> bool {
    &&& e.question@ == p.0
    &&& e.answer@ == p.1
    &&& opt_view(e.context) == Some(p.2)
    &&& opt_view(e.source) == Some(p.3)
    &&& e.metadata matches Some(m) && m.book_title is None && m.chapter is None && opt_view(
        m.chunk_id,
    ) == Some(id) && opt_view(m.question_type) == Some(p.4)
}

pub open spec fn system_prompt() -> Seq<char> {
    "You are a knowledgeable assistant. Answer questions accurately based on your training."@
}

/// The chat entry made from a pair: system prompt, question, answer.
pub open spec fn chat_from(e: ChatEntry, p: QAView) -> bool {
    &&& e.messages@.len() == 3
    &&& e.messages@[0].role@ == "system"@ && e.messages@[0].content@ == system_prompt()
    &&& e.messages@[1].role@ == "user"@ && e.messages@[1].content@ == p.0
    &&& e.messages@[2].role@ == "assistant"@ && e.messages@[2].content@ == p.1
}

/// The dataset made from the pairs: entry `k` of each format comes from pair `k`.
pub open spec fn dataset_from(d: Dataset, pairs: Seq<(Seq<char>, QAView)>) -> bool {
    &&& d.instructions@.len() == pairs.len()
    &&& d.qa_pairs@.len() == pairs.len()
    &&& d.chat_entries@.len() == pairs.len()
    &&& forall|k: int|
        0 <= k < pairs.len() ==> instruction_from(
            #[trigger] d.instructions@[k],
            pairs[k].0,
            pairs[k].1,
        ) && qa_entry_from(d.qa_pairs@[k], pairs[k].0, pairs[k].1) && chat_from(
            d.chat_entries@[k],
            pairs[k].1,
        )
}

/// The text of an instruction entry: instruction, input, output, source,
/// chunk id.
pub open spec fn instruction_text(e: InstructionEntry) -> (
    Seq<char>,
    Option<Seq<char>>,
    Seq<char>,
    Option<Seq<char>>,
    Option<Seq<char>>,
) {
    (e.instruction@, opt_view(e.input), e.output@, opt_view(e.source), opt_view(e.chunk_id))
}

/// The text of Q&A metadata: book title, chapter, chunk id, question type.
pub type QAMetadataText = (Option<Seq<char>>, Option<usize>, Option<Seq<char>>, Option<Seq<char>>);

/// The text of a Q&A entry: question, answer, context, source, metadata.
pub open spec fn qa_text(e: QAEntry) -> (
    Seq<char>,
    Seq<char>,
    Option<Seq<char>>,
    Option<Seq<char>>,
    Option<QAMetadataText>,
) {
    (
        e.question@,
        e.answer@,
        opt_view(e.context),
        opt_view(e.source),
        match e.metadata {
            Some(m) => Some((opt_view(m.book_title), m.chapter, opt_view(m.chunk_id), opt_view(m.question_type))),
            None => None,
        },
    )
}

/// The text of a chat entry: the role and content of each message.
pub open spec fn chat_text(e: ChatEntry) -> Seq<(Seq<char>, Seq<char>)> {
    e.messages@.map_values(|m: ChatMessage| (m.role@, m.content@))
}

pub open spec fn instruction_texts(s: Seq<InstructionEntry>) -> Seq<(
    Seq<char>,
    Option<Seq<char>>,
    Seq<char>,
    Option<Seq<char>>,
    Option<Seq<char>>,
)> {
    s.map_values(|e: InstructionEntry| instruction_text(e))
}

pub open spec fn qa_texts(s: Seq<QAEntry>) -> Seq<(
    Seq<char>,
    Seq<char>,
    Option<Seq<char>>,
    Option<Seq<char>>,
    Option<QAMetadataText>,
)> {
    s.map_values(|e: QAEntry| qa_text(e))
}

pub open spec fn chat_texts(s: Seq<ChatEntry>) -> Seq<Seq<(Seq<char>, Seq<char>)>> {
    s.map_values(|e: ChatEntry| chat_text(e))
}

/// The entries made from a pair of chunk `id` are fixed by the pair.
proof fn lemma_entries_from_pair(
    i: InstructionEntry,
    q: QAEntry,
    c: ChatEntry,
    id: Seq<char>,
    p: QAView,
)
    requires
        instruction_from(i, id, p),
        qa_entry_from(q, id, p),
        chat_from(c, p),
    ensures
        instruction_text(i) == (p.0, Some(p.2), p.1, Some(p.3), Some(id)),
        qa_text(q) == (
            p.0,
            p.1,
            Some(p.2),
            Some(p.3),
            Some((None::<Seq<char>>, None::<usize>, Some(id), Some(p.4))),
        ),
        chat_text(c) == seq![("system"@, system_prompt()), ("user"@, p.0), ("assistant"@, p.1)],
{
    assert(chat_text(c) =~= seq![("system"@, system_prompt()), ("user"@, p.0), ("assistant"@, p.1)]);
}

/// The pairs of a concatenation of chunk lists are those of each list in turn.
pub proof fn lemma_dataset_pairs_concat(a: Seq<Chunk>, b: Seq<Chunk>, max: int)
    ensures
        dataset_pairs(a + b, max) == dataset_pairs(a, max) + dataset_pairs(b, max),
    decreases b.len(),
{
    if b.len() == 0 {
        assert(a + b =~= a);
        assert(dataset_pairs(b, max) =~= Seq::<(Seq<char>, QAView)>::empty());
        assert(dataset_pairs(a, max) + dataset_pairs(b, max) =~= dataset_pairs(a, max));
    } else {
        lemma_dataset_pairs_concat(a, b.drop_last(), max);
        assert((a + b).drop_last() =~= a + b.drop_last());
        assert((a + b).last() == b.last());
        let c = b.last();
        let added = chunk_pairs(c.content@, c.id@, max).map_values(|p: QAView| (c.id@, p));
        assert(dataset_pairs(a + b, max) == dataset_pairs(a + b.drop_last(), max) + added);
        assert(dataset_pairs(b, max) == dataset_pairs(b.drop_last(), max) + added);
        assert(dataset_pairs(a, max) + dataset_pairs(b, max) =~= dataset_pairs(a, max)
            + dataset_pairs(b.drop_last(), max) + added);
    }
}

/// The entries of a dataset made from `pairs` are fixed, entry by entry, by
/// the pairs.
proof fn lemma_dataset_texts(d: Dataset, pairs: Seq<(Seq<char>, QAView)>)
    requires
        dataset_from(d, pairs),
    ensures
        instruction_texts(d.instructions@) == pairs.map_values(
            |x: (Seq<char>, QAView)| (x.1.0, Some(x.1.2), x.1.1, Some(x.1.3), Some(x.0)),
        ),
        qa_texts(d.qa_pairs@) == pairs.map_values(
            |x: (Seq<char>, QAView)|
                (
                    x.1.0,
                    x.1.1,
                    Some(x.1.2),
                    Some(x.1.3),
                    Some((None::<Seq<char>>, None::<usize>, Some(x.0), Some(x.1.4))),
                ),
        ),
        chat_texts(d.chat_entries@) == pairs.map_values(
            |x: (Seq<char>, QAView)|
                seq![("system"@, system_prompt()), ("user"@, x.1.0), ("assistant"@, x.1.1)],
        ),
{
    assert forall|k: int| 0 <= k < pairs.len() implies #[trigger] instruction_text(d.instructions@[k])
        == (pairs[k].1.0, Some(pairs[k].1.2), pairs[k].1.1, Some(pairs[k].1.3), Some(pairs[k].0)) by {
        lemma_entries_from_pair(d.instructions@[k], d.qa_pairs@[k], d.chat_entries@[k], pairs[k].0, pairs[k].1);
    }
    assert forall|k: int| 0 <= k < pairs.len() implies #[trigger] qa_text(d.qa_pairs@[k]) == (
        pairs[k].1.0,
        pairs[k].1.1,
        Some(pairs[k].1.2),
        Some(pairs[k].1.3),
        Some((None::<Seq<char>>, None::<usize>, Some(pairs[k].0), Some(pairs[k].1.4))),
    ) by {
        lemma_entries_from_pair(d.instructions@[k], d.qa_pairs@[k], d.chat_entries@[k], pairs[k].0, pairs[k].1);
    }
    assert forall|k: int| 0 <= k < pairs.len() implies #[trigger] chat_text(d.chat_entries@[k]) == seq![
        ("system"@, system_prompt()),
        ("user"@, pairs[k].1.0),
        ("assistant"@, pairs[k].1.1),
    ] by {
        lemma_entries_from_pair(d.instructions@[k], d.qa_pairs@[k], d.chat_entries@[k], pairs[k].0, pairs[k].1);
    }
    assert(instruction_texts(d.instructions@) =~= pairs.map_values(
        |x: (Seq<char>, QAView)| (x.1.0, Some(x.1.2), x.1.1, Some(x.1.3), Some(x.0)),
    ));
    assert(qa_texts(d.qa_pairs@) =~= pairs.map_values(
        |x: (Seq<char>, QAView)|
            (
                x.1.0,
                x.1.1,
                Some(x.1.2),
                Some(x.1.3),
                Some((None::<Seq<char>>, None::<usize>, Some(x.0), Some(x.1.4))),
            ),
    ));
    assert(chat_texts(d.chat_entries@) =~= pairs.map_values(
        |x: (Seq<char>, QAView)|
            seq![("system"@, system_prompt()), ("user"@, x.1.0), ("assistant"@, x.1.1)],
    ));
}

/// Law: generating from the chunks `a` followed by `b` gives, in each of the
/// three formats, the entries generated from `a` followed by those generated
/// from `b`.
pub proof fn lemma_generate_concat(a: Seq<Chunk>, b: Seq<Chunk>, max: int, r: Dataset, ra: Dataset, rb: Dataset)
    requires
        dataset_from(r, dataset_pairs(a + b, max)),
        dataset_from(ra, dataset_pairs(a, max)),
        dataset_from(rb, dataset_pairs(b, max)),
    ensures
        instruction_texts(r.instructions@) == instruction_texts(ra.instructions@) + instruction_texts(
            rb.instructions@,
        ),
        qa_texts(r.qa_pairs@) == qa_texts(ra.qa_pairs@) + qa_texts(rb.qa_pairs@),
        chat_texts(r.chat_entries@) == chat_texts(ra.chat_entries@) + chat_texts(rb.chat_entries@),
{
    lemma_dataset_pairs_concat(a, b, max);
    lemma_dataset_texts(r, dataset_pairs(a + b, max));
    lemma_dataset_texts(ra, dataset_pairs(a, max));
    lemma_dataset_texts(rb, dataset_pairs(b, max));
    let pa = dataset_pairs(a, max);
    let pb = dataset_pairs(b, max);
    let fi = |x: (Seq<char>, QAView)| (x.1.0, Some(x.1.2), x.1.1, Some(x.1.3), Some(x.0));
    assert((pa + pb).map_values(fi) =~= pa.map_values(fi) + pb.map_values(fi));
    let fq = |x: (Seq<char>, QAView)|
        (
            x.1.0,
            x.1.1,
            Some(x.1.2),
            Some(x.1.3),
            Some((None::<Seq<char>>, None::<usize>, Some(x.0), Some(x.1.4))),
        );
    assert((pa + pb).map_values(fq) =~= pa.map_values(fq) + pb.map_values(fq));
    let fc = |x: (Seq<char>, QAView)|
        seq![("system"@, system_prompt()), ("user"@, x.1.0), ("assistant"@, x.1.1)];
    assert((pa + pb).map_values(fc) =~= pa.map_values(fc) + pb.map_values(fc));
}

/// Law: a dataset generated from one chunk has at most `max` entries in each
/// format, each naming the chunk: its id as chunk id, its content as input
/// and context, `chunk_{id}` as source, and no book title or chapter.
pub proof fn lemma_generate_one_chunk(c: Chunk, max: int, r: Dataset)
    requires
        max >= 0,
        dataset_from(r, dataset_pairs(seq![c], max)),
    ensures
        r.instructions@.len() <= max,
        r.qa_pairs@.len() <= max,
        r.chat_entries@.len() <= max,
        forall|k: int|
            0 <= k < r.instructions@.len() ==> {
                let t = #[trigger] instruction_text(r.instructions@[k]);
                t.1 == Some(c.content@) && t.3 == Some("chunk_"@ + c.id@) && t.4 == Some(c.id@)
            },
        forall|k: int|
            0 <= k < r.qa_pairs@.len() ==> {
                let t = #[trigger] qa_text(r.qa_pairs@[k]);
                &&& t.2 == Some(c.content@)
                &&& t.3 == Some("chunk_"@ + c.id@)
                &&& t.4 matches Some(m) && m.0 is None && m.1 is None && m.2 == Some(c.id@)
            },
{
    let s = seq![c];
    assert(s.drop_last() =~= Seq::<Chunk>::empty());
    assert(s.last() == c);
    let cp = chunk_pairs(c.content@, c.id@, max);
    let pairs = dataset_pairs(s, max);
    assert(dataset_pairs(s.drop_last(), max) =~= Seq::<(Seq<char>, QAView)>::empty());
    assert(pairs =~= cp.map_values(|p: QAView| (c.id@, p)));
    lemma_chunk_pairs_at_most(c.content@, c.id@, max);
    lemma_chunk_pairs_origin(c.content@, c.id@, max);
    lemma_dataset_texts(r, pairs);
    assert forall|k: int| 0 <= k < r.instructions@.len() implies {
        let t = #[trigger] instruction_text(r.instructions@[k]);
        t.1 == Some(c.content@) && t.3 == Some("chunk_"@ + c.id@) && t.4 == Some(c.id@)
    } by {
        assert(instruction_texts(r.instructions@)[k] == instruction_text(r.instructions@[k]));
        assert(pairs[k] == (c.id@, cp[k]));
    }
    assert forall|k: int| 0 <= k < r.qa_pairs@.len() implies {
        let t = #[trigger] qa_text(r.qa_pairs@[k]);
        &&& t.2 == Some(c.content@)
        &&& t.3 == Some("chunk_"@ + c.id@)
        &&& t.4 matches Some(m) && m.0 is None && m.1 is None && m.2 == Some(c.id@)
    } by {
        assert(qa_texts(r.qa_pairs@)[k] == qa_text(r.qa_pairs@[k]));
        assert(pairs[k] == (c.id@, cp[k]));
    }
}

/// The first term of `ws[i..]`.
fn first_term_from(ws: &Vec<String>, i: usize) -> (r: Option<usize>)
    requires
        i <= ws.len(),
    ensures
        match r {
            Some(j) => j < ws.len() && first_term(string_views(ws@).skip(i as int)) == Some(
                ws@[j as int]@,
            ),
            None => first_term(string_views(ws@).skip(i as int)) is None,
        },
    decreases ws.len() - i,
{
    if i == ws.len() {
        assert(string_views(ws@).skip(i as int) =~= Seq::<Seq<char>>::empty());
        return None;
    }
    let ghost rest = string_views(ws@).skip(i as int);
    assert(rest[0] == ws@[i as int]@);
    assert(rest.drop_first() =~= string_views(ws@).skip(i + 1));
    let w = &ws[i];
    let cs = chars_of(w.as_str());
    if byte_length(w.as_str()) > 4 && cs.len() > 0 && is_uppercase(cs[0]) {
        Some(i)
    } else {
        first_term_from(ws, i + 1)
    }
}

/// Dataset generator
pub struct DatasetGenerator {
    config: DatasetConfig,
}

impl DatasetGenerator {
    pub closed spec fn pairs_per_chunk(&self) -> usize {
        self.config.num_qa_pairs_per_chunk
    }

    pub fn new(config: DatasetConfig) -> (g: Self)
        ensures
            g.pairs_per_chunk() == config.num_qa_pairs_per_chunk,
    {
        DatasetGenerator { config }
    }

    /// Generate dataset from text chunks: each generated pair gives one
    /// instruction entry, one Q&A entry and one chat entry.
    pub fn generate_from_chunks(&self, chunks: &[Chunk]) -> (r: Dataset)
        ensures
            dataset_from(r, dataset_pairs(chunks@, self.pairs_per_chunk() as int)),
    {
        let ghost max = self.config.num_qa_pairs_per_chunk as int;
        let mut instructions: Vec<InstructionEntry> = Vec::new();
        let mut qa_pairs: Vec<QAEntry> = Vec::new();
        let mut chat_entries: Vec<ChatEntry> = Vec::new();
        let mut c: usize = 0;
        assert(chunks@.take(0) =~= Seq::<Chunk>::empty());
        while c < chunks.len()
            invariant
                0 <= c <= chunks@.len(),
                max == self.pairs_per_chunk() as int,
                dataset_from(
                    Dataset { instructions, qa_pairs, chat_entries },
                    dataset_pairs(chunks@.take(c as int), max),
                ),
            decreases chunks.len() - c,
        {
            let chunk = &chunks[c];
            let qa_pairs_chunk = self.generate_qa_pairs(chunk);
            let ghost before = dataset_pairs(chunks@.take(c as int), max);
            let ghost added = chunk_pairs(chunk.content@, chunk.id@, max).map_values(
                |p: QAView| (chunk.id@, p),
            );
            assert(chunks@.take(c + 1).drop_last() =~= chunks@.take(c as int));
            assert(chunks@.take(c + 1).last() == chunk);
            assert(dataset_pairs(chunks@.take(c + 1), max) == before + added);
            let mut k: usize = 0;
            while k < qa_pairs_chunk.len()
                invariant
                    0 <= k <= qa_pairs_chunk.len(),
                    qa_views(qa_pairs_chunk@) == chunk_pairs(
                        chunk.content@,
                        chunk.id@,
                        max,
                    ),
                    added == chunk_pairs(chunk.content@, chunk.id@, max).map_values(
                        |p: QAView| (chunk.id@, p),
                    ),
                    dataset_from(
                        Dataset { instructions, qa_pairs, chat_entries },
                        before + added.take(k as int),
                    ),
                decreases qa_pairs_chunk.len() - k,
            {
                let qa = &qa_pairs_chunk[k];
                assert(qa_view(*qa) == chunk_pairs(chunk.content@, chunk.id@, max)[k as int]);
                let ghost pairs_k = before + added.take(k as int);
                let ghost pairs_k1 = before + added.take(k + 1);
                assert(pairs_k1 =~= pairs_k.push((chunk.id@, qa_view(*qa))));
                let ghost n = pairs_k.len();
                let ghost old_i = instructions@;
                let ghost old_q = qa_pairs@;
                let ghost old_c = chat_entries@;
                instructions.push(
                    InstructionEntry {
                        instruction: qa.question.clone(),
                        input: Some(qa.context.clone()),
                        output: qa.answer.clone(),
                        source: Some(qa.source.clone()),
                        chunk_id: Some(chunk.id.clone()),
                    },
                );
                qa_pairs.push(
                    QAEntry {
                        question: qa.question.clone(),
                        answer: qa.answer.clone(),
                        context: Some(qa.context.clone()),
                        source: Some(qa.source.clone()),
                        metadata: Some(
                            QAMetadata {
                                book_title: None,
                                chapter: None,
                                chunk_id: Some(chunk.id.clone()),
                                question_type: Some(qa.question_type.clone()),
                            },
                        ),
                    },
                );
                proof {
                    reveal_strlit("system");
                    reveal_strlit("user");
                    reveal_strlit("assistant");
                }
                let mut messages: Vec<ChatMessage> = Vec::new();
                messages.push(
                    ChatMessage {
                        role: String::from_str("system"),
                        content: String::from_str(
                            "You are a knowledgeable assistant. Answer questions accurately based on your training.",
                        ),
                    },
                );
                messages.push(
                    ChatMessage { role: String::from_str("user"), content: qa.question.clone() },
                );
                messages.push(
                    ChatMessage { role: String::from_str("assistant"), content: qa.answer.clone() },
                );
                chat_entries.push(ChatEntry { messages });
                assert forall|j: int| 0 <= j < pairs_k1.len() implies instruction_from(
                    #[trigger] instructions@[j],
                    pairs_k1[j].0,
                    pairs_k1[j].1,
                ) && qa_entry_from(qa_pairs@[j], pairs_k1[j].0, pairs_k1[j].1) && chat_from(
                    chat_entries@[j],
                    pairs_k1[j].1,
                ) by {
                    if j < n {
                        assert(instructions@[j] == old_i[j]);
                        assert(qa_pairs@[j] == old_q[j]);
                        assert(chat_entries@[j] == old_c[j]);
                        assert(pairs_k1[j] == pairs_k[j]);
                    }
                }
                k += 1;
            }
            assert(added.take(qa_pairs_chunk.len() as int) =~= added);
            c += 1;
        }
        assert(chunks@.take(chunks.len() as int) =~= chunks@);
        Dataset { instructions, qa_pairs, chat_entries }
    }

    /// Generate Q&A pairs from a chunk
    pub fn generate_qa_pairs(&self, chunk: &Chunk) -> (r: Vec<QAPair>)
        ensures
            qa_views(r@) == chunk_pairs(
                chunk.content@,
                chunk.id@,
                self.pairs_per_chunk() as int,
            ),
    {
        let content = &chunk.content;
        proof {
            reveal_strlit(". ");
        }
        let sentences = split_on_str(content.as_str(), ". ");
        let ghost sv = string_views(sentences@);
        let mut source = String::from_str("chunk_");
        push_str(&mut source, chunk.id.as_str());
        let mut pairs: Vec<QAPair> = Vec::new();
        let mut i: usize = 0;
        while i < sentences.len()
            invariant
                0 <= i <= sentences.len(),
                sv == string_views(sentences@),
                sv == split_str(chunk.content@, ". "@),
                source@ == "chunk_"@ + chunk.id@,
                content@ == chunk.content@,
                qa_views(pairs@) == pairs_upto(
                    chunk.content@,
                    chunk.id@,
                    sv,
                    i as int,
                ),
            decreases sentences.len() - i,
        {
            let sentence = &sentences[i];
            let ghost before = pairs@;
            assert(sv[i as int] == sentence@);
            if byte_length(sentence.as_str()) < 20 {
                assert(sentence_pairs(chunk.content@, chunk.id@, sv, i as int) =~= Seq::<QAView>::empty());
                assert(qa_views(pairs@) =~= pairs_upto(
                    chunk.content@,
                    chunk.id@,
                    sv,
                    i + 1,
                ));
                i += 1;
                continue;
            }
            let ws = split_whitespace(sentence.as_str());
            let ghost wv = string_views(ws@);
            if ws.len() > 5 {
                assert(string_views(ws@).skip(0) =~= string_views(ws@));
                let found_term = first_term_from(&ws, 0);
                let ghost factual: Seq<QAView> = match first_term(wv) {
                    Some(t) => seq![
                        ("What is "@ + t + "?"@, sentence@, chunk.content@, source@, "factual"@),
                    ],
                    None => seq![],
                };
                match found_term {
                    Some(j) => {
                        let ghost b0 = pairs@;
                        let mut question = String::from_str("What is ");
                        push_str(&mut question, ws[j].as_str());
                        push_str(&mut question, "?");
                        proof {
                            reveal_strlit("factual");
                        }
                        pairs.push(
                            QAPair {
                                question,
                                answer: sentence.clone(),
                                context: content.clone(),
                                source: source.clone(),
                                question_type: String::from_str("factual"),
                            },
                        );
                        proof {
                            lemma_qa_views_push(b0, pairs@.last());
                            assert(pairs@ == b0.push(pairs@.last()));
                            assert(first_term(wv) == Some(ws@[j as int]@));
                            assert(qa_view(pairs@.last()) == factual[0]);
                            assert(qa_views(pairs@) =~= qa_views(b0) + factual);
                        }
                    },
                    None => {
                        assert(factual =~= Seq::<QAView>::empty());
                        assert(qa_views(pairs@) =~= qa_views(before) + factual);
                    },
                }
                let ghost mid = pairs@;
                assert(qa_views(mid) =~= qa_views(before) + factual);
                if i == 0 && sentences.len() > 1 {
                    let n_preview = if ws.len() < 5 {
                        ws.len()
                    } else {
                        5
                    };
                    let mut preview_words: Vec<String> = Vec::new();
                    let mut m: usize = 0;
                    while m < n_preview
                        invariant
                            0 <= m <= n_preview <= ws.len(),
                            string_views(preview_words@) == wv.take(m as int),
                            wv == string_views(ws@),
                        decreases n_preview - m,
                    {
                        let ghost pw = string_views(preview_words@);
                        preview_words.push(ws[m].clone());
                        assert(string_views(preview_words@) =~= pw.push(ws@[m as int]@));
                        assert(wv.take(m + 1) =~= wv.take(m as int).push(wv[m as int]));
                        m += 1;
                    }
                    let n_explain = if sentences.len() < 3 {
                        sentences.len()
                    } else {
                        3
                    };
                    let mut explain: Vec<String> = Vec::new();
                    let mut m: usize = 0;
                    while m < n_explain
                        invariant
                            0 <= m <= n_explain <= sentences.len(),
                            string_views(explain@) == sv.take(m as int),
                            sv == string_views(sentences@),
                        decreases n_explain - m,
                    {
                        let ghost ev = string_views(explain@);
                        explain.push(sentences[m].clone());
                        assert(string_views(explain@) =~= ev.push(sentences@[m as int]@));
                        assert(sv.take(m + 1) =~= sv.take(m as int).push(sv[m as int]));
                        m += 1;
                    }
                    let explain_answer = join_strings(&explain, ". ");
                    let mut question = String::from_str("Explain the following concept: ");
                    let preview = join_strings(&preview_words, " ");
                    push_str(&mut question, preview.as_str());
                    proof {
                        reveal_strlit("inferential");
                    }
                    let ghost mid2 = pairs@;
                    let p = QAPair {
                        question,
                        answer: explain_answer,
                        context: content.clone(),
                        source: source.clone(),
                        question_type: String::from_str("inferential"),
                    };
                    pairs.push(p);
                    proof {
                        lemma_qa_views_push(mid2, p);
                    }
                }
                assert(qa_views(pairs@) =~= pairs_upto(
                    chunk.content@,
                    chunk.id@,
                    sv,
                    i + 1,
                ));
            } else {
                assert(qa_views(pairs@) =~= pairs_upto(
                    chunk.content@,
                    chunk.id@,
                    sv,
                    i + 1,
                ));
            }
            i += 1;
        }
        let ghost all = pairs@;
        pairs.truncate(self.config.num_qa_pairs_per_chunk);
        assert(qa_views(pairs@) =~= qa_views(all).take(
            min(self.config.num_qa_pairs_per_chunk as int, all.len() as int),
        ));
        pairs
    }

    /// Split dataset into train/val/test at the given boundaries:
    /// `[..train_end]`, `[train_end..val_end]` and `[val_end..]` of each format.
    pub fn generate_splits(&self, dataset: &Dataset, train_end: usize, val_end: usize) -> (r: DataSplits)
        requires
            train_end <= val_end,
            val_end <= dataset.instructions@.len(),
            val_end <= dataset.qa_pairs@.len(),
            val_end <= dataset.chat_entries@.len(),
        ensures
            r.train.instructions@ == dataset.instructions@.subrange(0, train_end as int),
            r.validation.instructions@ == dataset.instructions@.subrange(train_end as int, val_end as int),
            r.test.instructions@ == dataset.instructions@.subrange(val_end as int, dataset.instructions@.len() as int),
            r.train.qa_pairs@ == dataset.qa_pairs@.subrange(0, train_end as int),
            r.validation.qa_pairs@ == dataset.qa_pairs@.subrange(train_end as int, val_end as int),
            r.test.qa_pairs@ == dataset.qa_pairs@.subrange(val_end as int, dataset.qa_pairs@.len() as int),
            chat_views(r.train.chat_entries@) == chat_views(
                dataset.chat_entries@.subrange(0, train_end as int),
            ),
            chat_views(r.validation.chat_entries@) == chat_views(
                dataset.chat_entries@.subrange(train_end as int, val_end as int),
            ),
            chat_views(r.test.chat_entries@) == chat_views(
                dataset.chat_entries@.subrange(val_end as int, dataset.chat_entries@.len() as int),
            ),
            // the three splits partition each format
            r.train.instructions@ + r.validation.instructions@ + r.test.instructions@
                == dataset.instructions@,
            r.train.qa_pairs@ + r.validation.qa_pairs@ + r.test.qa_pairs@ == dataset.qa_pairs@,
    {
        let ni = dataset.instructions.len();
        let nq = dataset.qa_pairs.len();
        let nc = dataset.chat_entries.len();
        let r = DataSplits {
            train: Dataset {
                instructions: copy_instructions(&dataset.instructions, 0, train_end),
                qa_pairs: copy_qa(&dataset.qa_pairs, 0, train_end),
                chat_entries: copy_chat(&dataset.chat_entries, 0, train_end),
            },
            validation: Dataset {
                instructions: copy_instructions(&dataset.instructions, train_end, val_end),
                qa_pairs: copy_qa(&dataset.qa_pairs, train_end, val_end),
                chat_entries: copy_chat(&dataset.chat_entries, train_end, val_end),
            },
            test: Dataset {
                instructions: copy_instructions(&dataset.instructions, val_end, ni),
                qa_pairs: copy_qa(&dataset.qa_pairs, val_end, nq),
                chat_entries: copy_chat(&dataset.chat_entries, val_end, nc),
            },
        };
        assert(r.train.instructions@ + r.validation.instructions@ + r.test.instructions@
            =~= dataset.instructions@);
        assert(r.train.qa_pairs@ + r.validation.qa_pairs@ + r.test.qa_pairs@ =~= dataset.qa_pairs@);
        r
    }
}

} // verus!
