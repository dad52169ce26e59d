//! Prompt construction with retrieved context.
use vstd::prelude::*;
use vstd::string::*;
use crate::ingestion::book_loader::{contains, str_eq};
use crate::strings::{decimal, occurs_at, push_decimal, push_str, to_owned};

verus! {

/// A top-level field of a retrieved chunk's JSON payload: its key and, when
/// the value is a JSON string, that string.
#[derive(Debug, Clone)]
pub struct PayloadField {
    pub key: String,
    pub text: Option<String>,
}

/// The top-level fields of a retrieved chunk's JSON payload, in order.
#[derive(Debug, Clone)]
pub struct Payload {
    pub fields: Vec<PayloadField>,
}

/// The string value of the payload's field `key`, if it holds a string.
pub open spec fn payload_text(p: Payload, key: Seq<char>) -> Option<Seq<char>> {
    first_field_text(p.fields@, key)
}

/// The text of the first field named `key`, if that field holds a string.
pub open spec fn first_field_text(fields: Seq<PayloadField>, key: Seq<char>) -> Option<Seq<char>>
    decreases fields.len(),
{
    if fields.len() == 0 {
        None
    } else if fields[0].key@ == key {
        match fields[0].text {
            Some(t) => Some(t@),
            None => None,
        }
    } else {
        first_field_text(fields.drop_first(), key)
    }
}

impl Payload {
    /// An empty payload.
    pub fn new() -> (p: Payload)
        ensures
            p.fields@.len() == 0,
    {
        Payload { fields: Vec::new() }
    }

    /// The payload with a field holding a string appended.
    pub fn with_text(self, key: &str, value: &str) -> (p: Payload)
        ensures
            p.fields@.len() == self.fields@.len() + 1,
            forall|i: int| 0 <= i < self.fields@.len() ==> p.fields@[i] == self.fields@[i],
            p.fields@.last().key@ == key@,
            p.fields@.last().text matches Some(t) && t@ == value@,
    {
        let mut fields = self.fields;
        fields.push(PayloadField { key: to_owned(key), text: Some(to_owned(value)) });
        Payload { fields }
    }

    /// The payload with a field holding a non-string value appended.
    pub fn with_other(self, key: &str) -> (p: Payload)
        ensures
            p.fields@.len() == self.fields@.len() + 1,
            forall|i: int| 0 <= i < self.fields@.len() ==> p.fields@[i] == self.fields@[i],
            p.fields@.last().key@ == key@,
            p.fields@.last().text is None,
    {
        let mut fields = self.fields;
        fields.push(PayloadField { key: to_owned(key), text: None });
        Payload { fields }
    }

    /// The string value of field `key`, if it holds a string.
    pub fn get_text(&self, key: &str) -> (r: Option<String>)
        ensures
            match r {
                Some(t) => payload_text(*self, key@) == Some(t@),
                None => payload_text(*self, key@) is None,
            },
    {
        let mut i: usize = 0;
        assert(self.fields@.skip(0) =~= self.fields@);
        while i < self.fields.len()
            invariant
                0 <= i <= self.fields.len(),
                first_field_text(self.fields@, key@) == first_field_text(
                    self.fields@.skip(i as int),
                    key@,
                ),
            decreases self.fields.len() - i,
        {
            let f = &self.fields[i];
            let ghost rest = self.fields@.skip(i as int);
            assert(rest[0] == self.fields@[i as int]);
            assert(rest.drop_first() =~= self.fields@.skip(i + 1));
            if str_eq(f.key.as_str(), key) {
                return match &f.text {
                    Some(t) => Some(t.clone()),
                    None => None,
                };
            }
            i += 1;
        }
        None
    }
}

/// Retrieved chunk with relevance score. The score is held as the prompt
/// shows it: formatted with two decimals.
#[derive(Debug, Clone)]
pub struct RetrievedChunk {
    pub relevance: String,
    pub payload: Payload,
}

/// The text of an optional string, empty when absent.
pub open spec fn text_or_empty(t: Option<Seq<char>>) -> Seq<char> {
    match t {
        Some(s) => s,
        None => seq![],
    }
}

pub open spec fn prompt_header() -> Seq<char> {
    "Answer the question based on the provided context.\n\n"@
}

/// The context block of source `i` in `build_prompt`.
pub open spec fn source_block(i: int, c: RetrievedChunk) -> Seq<char> {
    "--- Source "@ + decimal((i + 1) as nat) + " (relevance: "@ + c.relevance@ + ") ---\n"@
        + text_or_empty(payload_text(c.payload, "content"@)) + "\n"@
}

pub open spec fn source_blocks(chunks: Seq<RetrievedChunk>, n: int) -> Seq<char>
    decreases n,
{
    if n <= 0 {
        seq![]
    } else {
        source_blocks(chunks, n - 1) + source_block(n - 1, chunks[n - 1])
    }
}

/// The prompt of `build_prompt`.
pub open spec fn prompt_text(query: Seq<char>, chunks: Seq<RetrievedChunk>) -> Seq<char> {
    prompt_header() + "Context:\n"@ + source_blocks(chunks, chunks.len() as int)
        + "\n--- Question ---\n"@ + query + "\n\nAnswer:"@
}

pub open spec fn rag_header() -> Seq<char> {
    "You are a helpful assistant that answers questions based on the provided context.\nInstructions:\n- Answer ONLY using information from the context below\n- If the context doesn't contain enough information, say 'I don't have enough information to answer this question'\n- Cite your sources when possible\n- Be concise and accurate\n\n"@
}

/// The context block of source `i` in `build_rag_prompt`.
pub open spec fn rag_block(i: int, c: RetrievedChunk) -> Seq<char> {
    let source = match payload_text(c.payload, "source"@) {
        Some(s) => s,
        None => "Unknown source"@,
    };
    "[Source "@ + decimal((i + 1) as nat) + " - "@ + source + "]\n"@ + text_or_empty(
        payload_text(c.payload, "content"@),
    ) + "\n\n"@
}

pub open spec fn rag_blocks(chunks: Seq<RetrievedChunk>, n: int) -> Seq<char>
    decreases n,
{
    if n <= 0 {
        seq![]
    } else {
        rag_blocks(chunks, n - 1) + rag_block(n - 1, chunks[n - 1])
    }
}

/// The prompt of `build_rag_prompt`.
pub open spec fn rag_prompt_text(query: Seq<char>, chunks: Seq<RetrievedChunk>) -> Seq<char> {
    rag_header() + "Context:\n"@ + rag_blocks(chunks, chunks.len() as int) + "Question: "@ + query
        + "\n\nAnswer:"@
}

/// The prompt of `build_qa_generation_prompt`.
pub open spec fn qa_prompt_text(context: Seq<char>, n: nat) -> Seq<char> {
    "Given the following text, generate "@ + decimal(n)
        + " diverse question-answer pairs.\nThe questions should be:\n- Factual (can be answered directly from the text)\n- Clear and specific\n- Varied in type (what, why, how, when, who)\n\nText:\n"@
        + context + "\n\nGenerate "@ + decimal(n)
        + " question-answer pairs in JSON format:\n[\n  {\"question\": \"...\", \"answer\": \"...\"},\n  ...\n]"@
}

/// The prompt of `build_instruction_generation_prompt`.
pub open spec fn instruction_prompt_text(context: Seq<char>) -> Seq<char> {
    "Given the following text, generate an instruction-input-output triplet.\nThe instruction should ask the model to explain, summarize, or analyze the content.\nThe input should contain the relevant context.\nThe output should be a clear, accurate response.\n\nText:\n"@
        + context
        + "\n\nGenerate in JSON format:\n{\"instruction\": \"...\", \"input\": \"...\", \"output\": \"...\"}"@
}

/// Context injection for RAG
pub struct PromptBuilder;

impl PromptBuilder {
    /// Build a prompt with retrieved context
    pub fn build_prompt(query: &str, chunks: &[RetrievedChunk]) -> (p: String)
        ensures
            p@ == prompt_text(query@, chunks@),
    {
        let mut prompt = String::from_str("Answer the question based on the provided context.\n\n");
        push_str(&mut prompt, "Context:\n");
        let ghost base = prompt@;
        let mut i: usize = 0;
        while i < chunks.len()
            invariant
                0 <= i <= chunks@.len(),
                prompt@ == base + source_blocks(chunks@, i as int),
            decreases chunks.len() - i,
        {
            let chunk = &chunks[i];
            push_str(&mut prompt, "--- Source ");
            push_decimal(&mut prompt, i + 1);
            push_str(&mut prompt, " (relevance: ");
            push_str(&mut prompt, chunk.relevance.as_str());
            push_str(&mut prompt, ") ---\n");
            let content_text = Self::get_string_field(&chunk.payload, "content");
            match content_text {
                Some(text) => push_str(&mut prompt, text.as_str()),
                None => {},
            }
            push_str(&mut prompt, "\n");
            assert(prompt@ =~= base + source_blocks(chunks@, i + 1));
            i += 1;
        }
        push_str(&mut prompt, "\n--- Question ---\n");
        push_str(&mut prompt, query);
        push_str(&mut prompt, "\n\nAnswer:");
        assert(prompt@ =~= prompt_text(query@, chunks@));
        prompt
    }

    /// Build RAG-specific prompt with instructions for grounded generation
    pub fn build_rag_prompt(query: &str, chunks: &[RetrievedChunk]) -> (p: String)
        ensures
            p@ == rag_prompt_text(query@, chunks@),
    {
        let mut prompt = String::from_str(
            "You are a helpful assistant that answers questions based on the provided context.\nInstructions:\n- Answer ONLY using information from the context below\n- If the context doesn't contain enough information, say 'I don't have enough information to answer this question'\n- Cite your sources when possible\n- Be concise and accurate\n\n",
        );
        push_str(&mut prompt, "Context:\n");
        let ghost base = prompt@;
        let mut i: usize = 0;
        while i < chunks.len()
            invariant
                0 <= i <= chunks@.len(),
                prompt@ == base + rag_blocks(chunks@, i as int),
            decreases chunks.len() - i,
        {
            let chunk = &chunks[i];
            let source_str = match Self::get_string_field(&chunk.payload, "source") {
                Some(s) => s,
                None => String::from_str("Unknown source"),
            };
            push_str(&mut prompt, "[Source ");
            push_decimal(&mut prompt, i + 1);
            push_str(&mut prompt, " - ");
            push_str(&mut prompt, source_str.as_str());
            push_str(&mut prompt, "]\n");
            let content_text = Self::get_string_field(&chunk.payload, "content");
            match content_text {
                Some(text) => push_str(&mut prompt, text.as_str()),
                None => {},
            }
            push_str(&mut prompt, "\n\n");
            assert(prompt@ =~= base + rag_blocks(chunks@, i + 1));
            i += 1;
        }
        push_str(&mut prompt, "Question: ");
        push_str(&mut prompt, query);
        push_str(&mut prompt, "\n\nAnswer:");
        assert(prompt@ =~= rag_prompt_text(query@, chunks@));
        prompt
    }

    /// Build a prompt for generating Q&A pairs from context
    pub fn build_qa_generation_prompt(context: &str, num_questions: usize) -> (p: String)
        ensures
            p@ == qa_prompt_text(context@, num_questions as nat),
    {
        let mut p = String::from_str("Given the following text, generate ");
        push_decimal(&mut p, num_questions);
        push_str(
            &mut p,
            " diverse question-answer pairs.\nThe questions should be:\n- Factual (can be answered directly from the text)\n- Clear and specific\n- Varied in type (what, why, how, when, who)\n\nText:\n",
        );
        push_str(&mut p, context);
        push_str(&mut p, "\n\nGenerate ");
        push_decimal(&mut p, num_questions);
        push_str(
            &mut p,
            " question-answer pairs in JSON format:\n[\n  {\"question\": \"...\", \"answer\": \"...\"},\n  ...\n]",
        );
        p
    }

    /// Build a prompt for instruction generation
    pub fn build_instruction_generation_prompt(context: &str) -> (p: String)
        ensures
            p@ == instruction_prompt_text(context@),
    {
        let mut p = String::from_str(
            "Given the following text, generate an instruction-input-output triplet.\nThe instruction should ask the model to explain, summarize, or analyze the content.\nThe input should contain the relevant context.\nThe output should be a clear, accurate response.\n\nText:\n",
        );
        push_str(&mut p, context);
        push_str(
            &mut p,
            "\n\nGenerate in JSON format:\n{\"instruction\": \"...\", \"input\": \"...\", \"output\": \"...\"}",
        );
        p
    }

    /// Helper to extract string field from JSON value
    pub fn get_string_field(payload: &Payload, field: &str) -> (r: Option<String>)
        ensures
            match r {
                Some(t) => payload_text(*payload, field@) == Some(t@),
                None => payload_text(*payload, field@) is None,
            },
    {
        payload.get_text(field)
    }
}

/// Law: the question appears verbatim in the prompt.
pub proof fn lemma_prompt_contains_query(query: Seq<char>, chunks: Seq<RetrievedChunk>)
    ensures
        contains(prompt_text(query, chunks), query),
{
    let pre = prompt_header() + "Context:\n"@ + source_blocks(chunks, chunks.len() as int)
        + "\n--- Question ---\n"@;
    let p = prompt_text(query, chunks);
    assert(p.subrange(pre.len() as int, (pre.len() + query.len()) as int) =~= query);
    assert(occurs_at(p, query, pre.len() as int));
}

/// Law: the question appears verbatim in the grounded (RAG) prompt.
pub proof fn lemma_rag_prompt_contains_query(query: Seq<char>, chunks: Seq<RetrievedChunk>)
    ensures
        contains(rag_prompt_text(query, chunks), query),
{
    let pre = rag_header() + "Context:\n"@ + rag_blocks(chunks, chunks.len() as int) + "Question: "@;
    let p = rag_prompt_text(query, chunks);
    assert(p =~= pre + query + "\n\nAnswer:"@);
    assert(p.subrange(pre.len() as int, (pre.len() + query.len()) as int) =~= query);
    assert(occurs_at(p, query, pre.len() as int));
}

/// Law: every retrieved chunk's content appears verbatim in the prompt.
pub proof fn lemma_prompt_contains_contents(query: Seq<char>, chunks: Seq<RetrievedChunk>, i: int)
    requires
        0 <= i < chunks.len(),
        payload_text(chunks[i].payload, "content"@) is Some,
    ensures
        contains(prompt_text(query, chunks), payload_text(chunks[i].payload, "content"@)->0),
{
    let content = payload_text(chunks[i].payload, "content"@)->0;
    let p = prompt_text(query, chunks);
    let head = prompt_header() + "Context:\n"@;
    lemma_blocks_split(chunks, i, chunks.len() as int);
    let before = source_blocks(chunks, i);
    let blk = source_block(i, chunks[i]);
    let blk_pre = "--- Source "@ + decimal((i + 1) as nat) + " (relevance: "@ + chunks[i].relevance@
        + ") ---\n"@;
    assert(blk =~= blk_pre + content + "\n"@);
    let after = source_blocks_range(chunks, i + 1, chunks.len() as int);
    assert(source_blocks(chunks, chunks.len() as int) == before + blk + after);
    let off = head.len() + before.len() + blk_pre.len();
    assert(p =~= head + before + blk_pre + content + ("\n"@ + after + "\n--- Question ---\n"@ + query
        + "\n\nAnswer:"@));
    assert(p.subrange(off as int, (off + content.len()) as int) =~= content);
    assert(occurs_at(p, content, off as int));
}

/// The blocks of sources `lo..hi`.
pub open spec fn source_blocks_range(chunks: Seq<RetrievedChunk>, lo: int, hi: int) -> Seq<char>
    decreases hi - lo,
{
    if hi <= lo {
        seq![]
    } else {
        source_blocks_range(chunks, lo, hi - 1) + source_block(hi - 1, chunks[hi - 1])
    }
}

proof fn lemma_blocks_split(chunks: Seq<RetrievedChunk>, i: int, n: int)
    requires
        0 <= i < n,
    ensures
        source_blocks(chunks, n) == source_blocks(chunks, i) + source_block(i, chunks[i])
            + source_blocks_range(chunks, i + 1, n),
    decreases n - i,
{
    if n == i + 1 {
        assert(source_blocks_range(chunks, i + 1, n) =~= Seq::<char>::empty());
        assert(source_blocks(chunks, n) =~= source_blocks(chunks, i) + source_block(i, chunks[i])
            + source_blocks_range(chunks, i + 1, n));
    } else {
        lemma_blocks_split(chunks, i, n - 1);
        assert(source_blocks(chunks, n) =~= source_blocks(chunks, i) + source_block(i, chunks[i])
            + source_blocks_range(chunks, i + 1, n));
    }
}

} // verus!
