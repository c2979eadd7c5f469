//! The answer engine: from retrieved chunks to a grounded answer with
//! citations, and to the turns that are kept of it.
//!
//! Retrieval, generation and persistence are the caller's part; what is
//! handed to the model, what is made of its answer, and what is kept, is
//! decided here.

use vstd::prelude::*;
use vstd::string::StringExecFns;
use crate::citations::CitationRef;
use crate::models::{ChunkWithScore, Citation, Message, MessageRole, SearchType};
use crate::text::{chars_of, str_eq, string_of, subvec};

verus! {

/// The longest snippet of a citation, in characters.
pub const SNIPPET_LEN: usize = 200;

/// The most tokens that an answer may take.
pub const ANSWER_MAX_TOKENS: u32 = 2000;

/// The temperature at which answers are generated, in hundredths.
pub const ANSWER_TEMPERATURE_PERCENT: u32 = 70;

/// A question to the knowledge base.
#[derive(Debug, Clone)]
pub struct RagQuery {
    pub query: String,
    pub conversation_id: Option<String>,
    pub max_chunks: Option<usize>,
    pub include_sources: bool,
    pub document_ids: Option<Vec<String>>,
}

/// A chunk that an answer may rest on.
#[derive(Debug, Clone)]
pub struct SourceChunk {
    pub chunk_id: i64,
    pub document_id: String,
    pub document_title: String,
    pub content: String,
    pub page_number: Option<i32>,
    /// Position within timed media, in milliseconds.
    pub timestamp: Option<u64>,
    /// In units of `1 / SCORE_SCALE`.
    pub relevance_score: u64,
    pub search_type: SearchType,
}

/// The answer to a question.
#[derive(Debug, Clone)]
pub struct RagResponse {
    pub answer: String,
    pub citations: Vec<Citation>,
    pub sources: Vec<SourceChunk>,
    pub conversation_id: String,
}

/// One earlier turn, as the model is told of it.
#[derive(Debug, Clone)]
pub struct ConversationMessage {
    pub role: String,
    pub content: String,
}

/// A chunk as it is put before the model.
#[derive(Debug, Clone)]
pub struct ContextChunk {
    pub id: i64,
    pub content: String,
    pub source: String,
    pub page: Option<i32>,
    /// Position within timed media, in milliseconds.
    pub timestamp: Option<u64>,
}

/// What the model is asked.
#[derive(Debug, Clone)]
pub struct GenerateRequest {
    pub prompt: String,
    pub system_prompt: Option<String>,
    pub context: Vec<ContextChunk>,
    pub history: Vec<ConversationMessage>,
    pub max_tokens: Option<u32>,
    /// In hundredths.
    pub temperature_percent: Option<u32>,
}

/// A turn that is to be appended to a conversation.
#[derive(Debug, Clone)]
pub struct NewMessage {
    pub role: MessageRole,
    pub content: String,
    pub citations: Vec<Citation>,
}

/// What the engine says when nothing was retrieved.
pub open spec fn no_context_answer() -> Seq<char> {
    "I don't have any relevant information in my knowledge base to answer this question. Please try adding relevant documents or rephrasing your question."@
}

/// The title shown for a chunk whose document is not in the store.
pub open spec fn unknown_title() -> Seq<char> {
    "Unknown"@
}

/// The number of chunks to retrieve: what the question asks for, or else
/// the default of the settings.
pub fn retrieval_limit(max_chunks: Option<usize>, default_limit: usize) -> (r: usize)
    ensures
        r == match max_chunks {
            Some(n) => n,
            None => default_limit,
        },
{
    match max_chunks {
        Some(n) => n,
        None => default_limit,
    }
}

/// The earlier turns of a conversation as the model is told of them, in
/// order, each with the name of its role.
pub fn history_of(messages: &Vec<Message>) -> (r: Vec<ConversationMessage>)
    ensures
        r@.len() == messages@.len(),
        forall|i: int|
            0 <= i < r@.len() ==> (#[trigger] r@[i]).role@ == messages@[i].role.name() && r@[i].content@
                == messages@[i].content@,
{
    let mut r: Vec<ConversationMessage> = Vec::new();
    let mut i: usize = 0;
    while i < messages.len()
        invariant
            i <= messages.len(),
            r@.len() == i,
            forall|j: int|
                0 <= j < i ==> (#[trigger] r@[j]).role@ == messages@[j].role.name()
                    && r@[j].content@ == messages@[j].content@,
        decreases messages.len() - i,
    {
        r.push(
            ConversationMessage {
                role: messages[i].role.as_str().to_owned(),
                content: messages[i].content.clone(),
            },
        );
        i += 1;
    }
    r
}

/// A document id with the title found for it in the store, if any.
pub type DocumentTitle = (String, Option<String>);

/// The place of the first of the first `n` entries that is for document
/// `id`, or -1.
pub open spec fn title_index(titles: Seq<DocumentTitle>, id: Seq<char>, n: int) -> int
    decreases n,
{
    if n <= 0 || n > titles.len() {
        -1
    } else {
        let before = title_index(titles, id, n - 1);
        if before >= 0 {
            before
        } else if titles[n - 1].0@ == id {
            n - 1
        } else {
            -1
        }
    }
}

/// The title shown for document `id`: the one found for it, or
/// `Unknown`.
pub open spec fn title_for(titles: Seq<DocumentTitle>, id: Seq<char>) -> Seq<char> {
    let i = title_index(titles, id, titles.len() as int);
    if 0 <= i < titles.len() {
        match titles[i].1 {
            Some(t) => t@,
            None => unknown_title(),
        }
    } else {
        unknown_title()
    }
}

fn lookup_title(titles: &Vec<DocumentTitle>, id: &str) -> (r: String)
    ensures
        r@ == title_for(titles@, id@),
{
    let mut n: usize = 0;
    while n < titles.len()
        invariant
            n <= titles.len(),
            title_index(titles@, id@, n as int) == -1,
        decreases titles.len() - n,
    {
        if str_eq(titles[n].0.as_str(), id) {
            proof {
                lemma_title_index_found(titles@, id@, n as int, titles@.len() as int);
            }
            return match &titles[n].1 {
                Some(t) => t.clone(),
                None => "Unknown".to_owned(),
            };
        }
        n += 1;
    }
    "Unknown".to_owned()
}

proof fn lemma_title_index_found(titles: Seq<DocumentTitle>, id: Seq<char>, k: int, n: int)
    requires
        0 <= k < n <= titles.len(),
        title_index(titles, id, k) == -1,
        titles[k].0@ == id,
    ensures
        title_index(titles, id, n) == k,
    decreases n,
{
    if n > k + 1 {
        lemma_title_index_found(titles, id, k, n - 1);
    }
}

/// Whether `s` is the source built from the retrieved chunk `c` and the
/// titles that were found.
pub open spec fn source_of(s: SourceChunk, c: ChunkWithScore, titles: Seq<DocumentTitle>) -> bool {
    &&& s.chunk_id == c.chunk.id
    &&& s.document_id@ == c.chunk.document_id@
    &&& s.document_title@ == title_for(titles, c.chunk.document_id@)
    &&& s.content@ == c.chunk.content@
    &&& s.page_number == c.chunk.page_number
    &&& s.timestamp == c.chunk.timestamp_start
    &&& s.relevance_score == c.score
    &&& s.search_type == c.search_type
}

/// Builds the sources of an answer from the retrieved chunks, in order,
/// each with the title of its document.
pub fn build_source_chunks(chunks: &Vec<ChunkWithScore>, titles: &Vec<DocumentTitle>) -> (r: Vec<
    SourceChunk,
>)
    ensures
        r@.len() == chunks@.len(),
        forall|i: int| 0 <= i < r@.len() ==> source_of(#[trigger] r@[i], chunks@[i], titles@),
{
    let mut r: Vec<SourceChunk> = Vec::new();
    let mut i: usize = 0;
    while i < chunks.len()
        invariant
            i <= chunks.len(),
            r@.len() == i,
            forall|j: int| 0 <= j < i ==> source_of(#[trigger] r@[j], chunks@[j], titles@),
        decreases chunks.len() - i,
    {
        let c = &chunks[i];
        r.push(
            SourceChunk {
                chunk_id: c.chunk.id,
                document_id: c.chunk.document_id.clone(),
                document_title: lookup_title(titles, c.chunk.document_id.as_str()),
                content: c.chunk.content.clone(),
                page_number: c.chunk.page_number,
                timestamp: c.chunk.timestamp_start,
                relevance_score: c.score,
                search_type: c.search_type,
            },
        );
        i += 1;
    }
    r
}

/// Whether `c` is source `s` as it is put before the model.
pub open spec fn context_of(c: ContextChunk, s: SourceChunk) -> bool {
    &&& c.id == s.chunk_id
    &&& c.content@ == s.content@
    &&& c.source@ == s.document_title@
    &&& c.page == s.page_number
    &&& c.timestamp == s.timestamp
}

/// Puts the sources before the model, in order.
pub fn build_context(sources: &Vec<SourceChunk>) -> (r: Vec<ContextChunk>)
    ensures
        r@.len() == sources@.len(),
        forall|i: int| 0 <= i < r@.len() ==> context_of(#[trigger] r@[i], sources@[i]),
{
    let mut r: Vec<ContextChunk> = Vec::new();
    let mut i: usize = 0;
    while i < sources.len()
        invariant
            i <= sources.len(),
            r@.len() == i,
            forall|j: int| 0 <= j < i ==> context_of(#[trigger] r@[j], sources@[j]),
        decreases sources.len() - i,
    {
        let s = &sources[i];
        r.push(
            ContextChunk {
                id: s.chunk_id,
                content: s.content.clone(),
                source: s.document_title.clone(),
                page: s.page_number,
                timestamp: s.timestamp,
            },
        );
        i += 1;
    }
    r
}

/// A text as a snippet of at most `max_len` characters: as it stands
/// where it fits, else its first characters with three full stops behind,
/// `max_len` characters in all. Where `max_len` leaves no room for the
/// full stops, the snippet is the first `max_len` characters alone.
pub open spec fn snippet_of(text: Seq<char>, max_len: int) -> Seq<char> {
    if text.len() <= max_len {
        text
    } else if max_len >= 3 {
        text.take(max_len - 3) + "..."@
    } else {
        text.take(max_len)
    }
}

/// A snippet is never longer than its limit.
pub proof fn lemma_snippet_fits(text: Seq<char>, max_len: int)
    requires
        max_len >= 0,
    ensures
        snippet_of(text, max_len).len() <= max_len,
        text.len() <= max_len ==> snippet_of(text, max_len) == text,
{
    reveal_strlit("...");
}

/// Cuts a text down to a snippet of at most `max_len` characters.
pub fn truncate_snippet(text: &str, max_len: usize) -> (r: String)
    ensures
        r@ == snippet_of(text@, max_len as int),
        r@.len() <= max_len,
{
    proof {
        lemma_snippet_fits(text@, max_len as int);
    }
    let chars = chars_of(text);
    if chars.len() <= max_len {
        text.to_owned()
    } else if max_len >= 3 {
        let kept = subvec(&chars, 0, max_len - 3);
        let mut r = string_of(&kept);
        r.append("...");
        proof {
            assert(r@ =~= text@.take(max_len - 3) + "..."@);
        }
        r
    } else {
        let kept = subvec(&chars, 0, max_len);
        let r = string_of(&kept);
        proof {
            assert(r@ =~= text@.take(max_len as int));
        }
        r
    }
}

/// The place of the last of the first `n` sources that is chunk `id`, or
/// -1.
pub open spec fn source_index(sources: Seq<SourceChunk>, id: i64, n: int) -> int
    decreases n,
{
    if n <= 0 || n > sources.len() {
        -1
    } else if sources[n - 1].chunk_id == id {
        n - 1
    } else {
        source_index(sources, id, n - 1)
    }
}

fn find_source(sources: &Vec<SourceChunk>, id: i64) -> (r: Option<usize>)
    ensures
        match r {
            Some(i) => i == source_index(sources@, id, sources@.len() as int) && i < sources@.len()
                && sources@[i as int].chunk_id == id,
            None => source_index(sources@, id, sources@.len() as int) == -1,
        },
{
    let mut n: usize = sources.len();
    while n > 0
        invariant
            n <= sources.len(),
            source_index(sources@, id, sources@.len() as int) == source_index(
                sources@,
                id,
                n as int,
            ),
        decreases n,
    {
        if sources[n - 1].chunk_id == id {
            return Some(n - 1);
        }
        n -= 1;
    }
    None
}

/// For the first `n` references: the place of the source of each one
/// that refers to a source.
pub open spec fn cited_sources(refs: Seq<CitationRef>, sources: Seq<SourceChunk>, n: int) -> Seq<
    int,
>
    decreases n,
{
    if n <= 0 || n > refs.len() {
        Seq::empty()
    } else {
        let prev = cited_sources(refs, sources, n - 1);
        let i = source_index(sources, refs[n - 1].chunk_id, sources.len() as int);
        if 0 <= i < sources.len() {
            prev.push(i)
        } else {
            prev
        }
    }
}

/// Whether `c` is the citation of source `s`.
pub open spec fn citation_of(c: Citation, s: SourceChunk) -> bool {
    &&& c.chunk_id == s.chunk_id
    &&& c.document_id@ == s.document_id@
    &&& c.document_title@ == s.document_title@
    &&& c.content_snippet@ == snippet_of(s.content@, SNIPPET_LEN as int)
    &&& c.page_number == s.page_number
    &&& c.timestamp == s.timestamp
    &&& c.relevance_score == s.relevance_score
}

/// Whether `c` is the citation of the source at place `i`.
pub open spec fn cites_source(c: Citation, sources: Seq<SourceChunk>, i: int) -> bool {
    0 <= i < sources.len() && citation_of(c, sources[i])
}

/// Joins the references found in an answer to the sources of the answer.
///
/// Each reference to a source gives a citation, in the order of the
/// references, with a snippet of the source's text. A reference to a
/// chunk that is not among the sources is dropped.
pub fn build_citations(citation_refs: &Vec<CitationRef>, sources: &Vec<SourceChunk>) -> (r: Vec<
    Citation,
>)
    ensures
        ({
            let cited = cited_sources(citation_refs@, sources@, citation_refs@.len() as int);
            &&& r@.len() == cited.len()
            &&& forall|i: int|
                0 <= i < r@.len() ==> cites_source(#[trigger] r@[i], sources@, cited[i])
        }),
{
    let mut r: Vec<Citation> = Vec::new();
    let mut n: usize = 0;
    while n < citation_refs.len()
        invariant
            n <= citation_refs.len(),
            r@.len() == cited_sources(citation_refs@, sources@, n as int).len(),
            forall|i: int|
                0 <= i < r@.len() ==> cites_source(
                    #[trigger] r@[i],
                    sources@,
                    cited_sources(citation_refs@, sources@, n as int)[i],
                ),
        decreases citation_refs.len() - n,
    {
        let ghost before = r@;
        let ghost prev = cited_sources(citation_refs@, sources@, n as int);
        let ghost next = cited_sources(citation_refs@, sources@, n + 1);
        let found = find_source(sources, citation_refs[n].chunk_id);
        match found {
            Some(i) => {
                let s = &sources[i];
                r.push(
                    Citation {
                        chunk_id: citation_refs[n].chunk_id,
                        document_id: s.document_id.clone(),
                        document_title: s.document_title.clone(),
                        content_snippet: truncate_snippet(s.content.as_str(), SNIPPET_LEN),
                        page_number: s.page_number,
                        timestamp: s.timestamp,
                        relevance_score: s.relevance_score,
                    },
                );
                proof {
                    assert(next == prev.push(i as int));
                }
            },
            None => {
                proof {
                    assert(next == prev);
                }
            },
        }
        proof {
            assert forall|i: int| 0 <= i < r@.len() implies cites_source(
                #[trigger] r@[i],
                sources@,
                next[i],
            ) by {
                if i < before.len() {
                    assert(r@[i] == before[i]);
                    assert(next[i] == prev[i]);
                } else {
                    assert(found is Some);
                    assert(before.len() == prev.len());
                    assert(next[i] == found->0 as int);
                    assert(citation_of(r@[i], sources@[found->0 as int]));
                }
            }
        }
        n += 1;
    }
    r
}

/// Whether two citations say the same.
pub open spec fn same_citation(a: Citation, b: Citation) -> bool {
    &&& a.chunk_id == b.chunk_id
    &&& a.document_id@ == b.document_id@
    &&& a.document_title@ == b.document_title@
    &&& a.content_snippet@ == b.content_snippet@
    &&& a.page_number == b.page_number
    &&& a.timestamp == b.timestamp
    &&& a.relevance_score == b.relevance_score
}

/// A copy of a list of citations.
pub fn copy_citations(citations: &Vec<Citation>) -> (r: Vec<Citation>)
    ensures
        r@.len() == citations@.len(),
        forall|i: int| 0 <= i < r@.len() ==> same_citation(#[trigger] r@[i], citations@[i]),
{
    let mut r: Vec<Citation> = Vec::new();
    let mut i: usize = 0;
    while i < citations.len()
        invariant
            i <= citations.len(),
            r@.len() == i,
            forall|j: int| 0 <= j < i ==> same_citation(#[trigger] r@[j], citations@[j]),
        decreases citations.len() - i,
    {
        let c = &citations[i];
        r.push(
            Citation {
                chunk_id: c.chunk_id,
                document_id: c.document_id.clone(),
                document_title: c.document_title.clone(),
                content_snippet: c.content_snippet.clone(),
                page_number: c.page_number,
                timestamp: c.timestamp,
                relevance_score: c.relevance_score,
            },
        );
        i += 1;
    }
    r
}

/// The answer where nothing was retrieved: a fixed text, without
/// citations or sources. The model is not asked and no turn is kept.
pub fn no_context_response(conversation_id: String) -> (r: RagResponse)
    ensures
        r.answer@ == no_context_answer(),
        r.citations@.len() == 0,
        r.sources@.len() == 0,
        r.conversation_id == conversation_id,
{
    RagResponse {
        answer: "I don't have any relevant information in my knowledge base to answer this question. Please try adding relevant documents or rephrasing your question.".to_owned(),
        citations: Vec::new(),
        sources: Vec::new(),
        conversation_id,
    }
}

/// What the model is asked for a question: the question as prompt, the
/// fixed system prompt, the sources as context, and the earlier turns.
pub fn build_generate_request(
    query: &str,
    system_prompt: &str,
    sources: &Vec<SourceChunk>,
    history: Vec<ConversationMessage>,
) -> (r: GenerateRequest)
    ensures
        r.prompt@ == query@,
        r.system_prompt matches Some(p) && p@ == system_prompt@,
        r.context@.len() == sources@.len(),
        forall|i: int| 0 <= i < r.context@.len() ==> context_of(#[trigger] r.context@[i], sources@[i]),
        r.history == history,
        r.max_tokens == Some(ANSWER_MAX_TOKENS),
        r.temperature_percent == Some(ANSWER_TEMPERATURE_PERCENT),
{
    GenerateRequest {
        prompt: query.to_owned(),
        system_prompt: Some(system_prompt.to_owned()),
        context: build_context(sources),
        history,
        max_tokens: Some(ANSWER_MAX_TOKENS),
        temperature_percent: Some(ANSWER_TEMPERATURE_PERCENT),
    }
}

/// An answer with the turns that are kept of it.
#[derive(Debug, Clone)]
pub struct RagOutcome {
    pub response: RagResponse,
    pub turns: Vec<NewMessage>,
}

/// Makes the answer of what the model generated, and the two turns that
/// are appended to the conversation: the user's question, without
/// citations, then the assistant's answer with its citations.
///
/// The sources are part of the answer only where the question asked for
/// them.
pub fn compose_answer(
    query: &str,
    conversation_id: String,
    content: String,
    citation_refs: &Vec<CitationRef>,
    sources: Vec<SourceChunk>,
    include_sources: bool,
) -> (r: RagOutcome)
    ensures
        r.response.answer@ == content@,
        r.response.conversation_id == conversation_id,
        ({
            let cited = cited_sources(citation_refs@, sources@, citation_refs@.len() as int);
            &&& r.response.citations@.len() == cited.len()
            &&& forall|i: int|
                0 <= i < cited.len() ==> cites_source(
                    #[trigger] r.response.citations@[i],
                    sources@,
                    cited[i],
                )
        }),
        include_sources ==> r.response.sources == sources,
        !include_sources ==> r.response.sources@.len() == 0,
        r.turns@.len() == 2,
        r.turns@[0].role == MessageRole::User,
        r.turns@[0].content@ == query@,
        r.turns@[0].citations@.len() == 0,
        r.turns@[1].role == MessageRole::Assistant,
        r.turns@[1].content@ == content@,
        r.turns@[1].citations@.len() == r.response.citations@.len(),
        forall|i: int|
            0 <= i < r.response.citations@.len() ==> same_citation(
                #[trigger] r.turns@[1].citations@[i],
                r.response.citations@[i],
            ),
{
    let citations = build_citations(citation_refs, &sources);
    let kept = copy_citations(&citations);
    let mut turns: Vec<NewMessage> = Vec::new();
    turns.push(
        NewMessage { role: MessageRole::User, content: query.to_owned(), citations: Vec::new() },
    );
    turns.push(
        NewMessage { role: MessageRole::Assistant, content: content.clone(), citations: kept },
    );
    RagOutcome {
        response: RagResponse {
            answer: content,
            citations,
            sources: if include_sources {
                sources
            } else {
                Vec::new()
            },
            conversation_id,
        },
        turns,
    }
}

} // verus!
