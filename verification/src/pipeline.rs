//! The ingestion of one document, as a machine that is told what has
//! happened and says what is to be done next.
//!
//! The caller does the work: it runs the extractor, the chunker, the
//! store and the model, and reports each outcome as an event. The
//! machine keeps the order of the stages, looks for cancellation where
//! the pipeline allows it, and sees to it that a document is completed
//! only with chunks, and with embeddings for all of them or for none.

use vstd::prelude::*;
use vstd::string::StringExecFns;
use crate::cancel::CancellationSet;
use crate::error::RecallError;
use crate::models::{FileType, IngestionStage};
use crate::text::{decimal, push_decimal};

verus! {

/// The extractor that a kind of file is handed to.
#[derive(Debug, Clone, Copy, PartialEq, Eq, Structural)]
pub enum Extractor {
    Pdf,
    Text,
    Video,
    Audio,
    Image,
}

/// Where the machine stands.
#[derive(Debug, Clone, Copy, PartialEq, Eq, Structural)]
pub enum Phase {
    Queued,
    Extracting,
    Chunking,
    StoringChunks,
    Embedding,
    Indexing,
    Completed,
    Failed,
}

/// What has happened.
#[derive(Debug, Clone)]
pub enum PipelineEvent {
    /// The document's turn has come.
    Started,
    /// The extractor has returned content.
    Extracted,
    /// The chunker has cut this many chunks.
    Chunked { count: usize },
    /// The chunks are in the store.
    ChunksStored,
    /// The model has returned this many embeddings.
    Embedded { count: usize },
    /// The embeddings are in the store.
    EmbeddingsStored,
    /// A step has failed.
    Failed(RecallError),
}

/// What is to be done next.
#[derive(Debug, Clone)]
pub enum PipelineAction {
    /// Mark the document as processing and run this extractor.
    Extract(Extractor),
    /// Cut the extracted content into chunks.
    Chunk,
    /// Insert the chunks, in one transaction.
    StoreChunks,
    /// Embed the texts of all chunks.
    Embed,
    /// Insert the embeddings, in one transaction.
    StoreEmbeddings,
    /// Mark the document as completed.
    Complete,
    /// Mark the document as failed, with this failure's text.
    Fail(RecallError),
    /// Nothing: the ingestion has ended before.
    Nothing,
}

/// The ways in which the machine itself ends an ingestion.
#[derive(Debug, Clone, Copy, PartialEq, Eq, Structural)]
pub enum Refusal {
    Cancelled,
    UnsupportedType,
    NoModel,
    NoContent,
    Mismatch,
    OutOfTurn,
}

/// The text of each refusal.
pub open spec fn refusal_text(r: Refusal) -> Seq<char> {
    match r {
        Refusal::Cancelled => "Ingestion error: Ingestion cancelled"@,
        Refusal::UnsupportedType => "Ingestion error: Unsupported file type"@,
        Refusal::NoModel => "Configuration error: LLM client not configured"@,
        Refusal::NoContent => "Ingestion error: No content extracted from file"@,
        Refusal::Mismatch => "Mismatched chunk_ids and embeddings length"@,
        Refusal::OutOfTurn => "Ingestion error: Event out of turn"@,
    }
}

/// Whether a failure is of the kind that a refusal is reported as: a
/// missing model is a failure of configuration, a mismatch of counts is
/// of no kind in particular, every other refusal is a failure of
/// ingestion.
pub open spec fn is_refusal(e: RecallError, r: Refusal) -> bool {
    &&& e.message_spec() == refusal_text(r)
    &&& match r {
        Refusal::NoModel => e is Config,
        Refusal::Mismatch => e is Other,
        _ => e is Ingestion,
    }
}

fn refuse(r: Refusal) -> (e: RecallError)
    ensures
        is_refusal(e, r),
{
    let e = match r {
        Refusal::Cancelled => RecallError::Ingestion("Ingestion cancelled".to_owned()),
        Refusal::UnsupportedType => RecallError::Ingestion("Unsupported file type".to_owned()),
        Refusal::NoModel => RecallError::Config("LLM client not configured".to_owned()),
        Refusal::NoContent => RecallError::Ingestion(
            "No content extracted from file".to_owned(),
        ),
        Refusal::Mismatch => RecallError::Other(
            "Mismatched chunk_ids and embeddings length".to_owned(),
        ),
        Refusal::OutOfTurn => RecallError::Ingestion("Event out of turn".to_owned()),
    };
    proof {
        reveal_strlit("Ingestion error: ");
        reveal_strlit("Configuration error: ");
        reveal_strlit("");
        reveal_strlit("Ingestion cancelled");
        reveal_strlit("Unsupported file type");
        reveal_strlit("LLM client not configured");
        reveal_strlit("No content extracted from file");
        reveal_strlit("Mismatched chunk_ids and embeddings length");
        reveal_strlit("Event out of turn");
        reveal_strlit("Ingestion error: Ingestion cancelled");
        reveal_strlit("Ingestion error: Unsupported file type");
        reveal_strlit("Configuration error: LLM client not configured");
        reveal_strlit("Ingestion error: No content extracted from file");
        reveal_strlit("Ingestion error: Event out of turn");
        assert(e.message_spec() =~= refusal_text(r));
    }
    e
}

/// The extractor for a kind of file, if there is one.
pub open spec fn extractor_of(file_type: FileType) -> Option<Extractor> {
    match file_type {
        FileType::Pdf => Some(Extractor::Pdf),
        FileType::Text | FileType::Markdown => Some(Extractor::Text),
        FileType::Video => Some(Extractor::Video),
        FileType::Audio => Some(Extractor::Audio),
        FileType::Image | FileType::Screenshot => Some(Extractor::Image),
        FileType::Unknown => None,
    }
}

/// Whether an extractor cannot work without the model.
pub open spec fn needs_model(e: Extractor) -> bool {
    e == Extractor::Video || e == Extractor::Audio || e == Extractor::Image
}

/// The extractor for a kind of file, if there is one.
pub fn extractor_for(file_type: FileType) -> (r: Option<Extractor>)
    ensures
        r == extractor_of(file_type),
{
    match file_type {
        FileType::Pdf => Some(Extractor::Pdf),
        FileType::Text | FileType::Markdown => Some(Extractor::Text),
        FileType::Video => Some(Extractor::Video),
        FileType::Audio => Some(Extractor::Audio),
        FileType::Image | FileType::Screenshot => Some(Extractor::Image),
        FileType::Unknown => None,
    }
}

/// The outcome of a step: the phase reached, and what is to be done, as
/// far as it does not depend on the text of a failure from outside.
pub enum Outcome {
    Extract(Extractor),
    Chunk,
    StoreChunks,
    Embed,
    StoreEmbeddings,
    Complete,
    Refuse(Refusal),
    FailOutside,
    Nothing,
}

/// The ingestion of one document.
#[derive(Debug, Clone)]
pub struct Pipeline {
    document_id: String,
    file_type: FileType,
    has_model: bool,
    phase: Phase,
    chunk_count: usize,
    embedded_count: usize,
}

impl Pipeline {
    /// The document that is ingested.
    pub closed spec fn document(self) -> Seq<char> {
        self.document_id@
    }

    /// The kind of the document's file.
    pub closed spec fn kind(self) -> FileType {
        self.file_type
    }

    /// Whether a model client is configured.
    pub closed spec fn model(self) -> bool {
        self.has_model
    }

    /// Where the machine stands.
    pub closed spec fn at(self) -> Phase {
        self.phase
    }

    /// The number of chunks that were cut.
    pub closed spec fn chunks(self) -> int {
        self.chunk_count as int
    }

    /// The number of embeddings that were returned.
    pub closed spec fn embeddings(self) -> int {
        self.embedded_count as int
    }

    /// What holds of every machine: before the chunker has run there are
    /// no chunks, before the model has run there are no embeddings, and a
    /// completed document has at least one chunk and embeddings for all
    /// of its chunks or for none.
    pub open spec fn wf(self) -> bool {
        &&& (self.at() == Phase::Queued || self.at() == Phase::Extracting || self.at()
            == Phase::Chunking) ==> self.chunks() == 0
        &&& (self.at() == Phase::StoringChunks || self.at() == Phase::Embedding || self.at()
            == Phase::Indexing || self.at() == Phase::Completed) ==> self.chunks() >= 1
        &&& (self.at() == Phase::Indexing) ==> self.embeddings() == self.chunks()
        &&& (self.at() != Phase::Indexing && self.at() != Phase::Completed && self.at()
            != Phase::Failed) ==> self.embeddings() == 0
        &&& (self.at() == Phase::Completed) ==> (self.embeddings() == 0 || self.embeddings()
            == self.chunks())
        &&& (self.at() == Phase::Embedding || self.at() == Phase::Indexing) ==> self.model()
    }

    /// What a step makes of the machine and an event, given whether the
    /// document's ingestion was asked to stop.
    pub open spec fn outcome(self, event: PipelineEvent, cancelled: bool) -> (Phase, Outcome) {
        match self.at() {
            Phase::Completed | Phase::Failed => (self.at(), Outcome::Nothing),
            _ => match event {
                PipelineEvent::Failed(_) => (Phase::Failed, Outcome::FailOutside),
                PipelineEvent::Started => if self.at() != Phase::Queued {
                    (Phase::Failed, Outcome::Refuse(Refusal::OutOfTurn))
                } else if cancelled {
                    (Phase::Failed, Outcome::Refuse(Refusal::Cancelled))
                } else {
                    match extractor_of(self.kind()) {
                        None => (Phase::Failed, Outcome::Refuse(Refusal::UnsupportedType)),
                        Some(e) => if needs_model(e) && !self.model() {
                            (Phase::Failed, Outcome::Refuse(Refusal::NoModel))
                        } else {
                            (Phase::Extracting, Outcome::Extract(e))
                        },
                    }
                },
                PipelineEvent::Extracted => if self.at() != Phase::Extracting {
                    (Phase::Failed, Outcome::Refuse(Refusal::OutOfTurn))
                } else if cancelled {
                    (Phase::Failed, Outcome::Refuse(Refusal::Cancelled))
                } else {
                    (Phase::Chunking, Outcome::Chunk)
                },
                PipelineEvent::Chunked { count } => if self.at() != Phase::Chunking {
                    (Phase::Failed, Outcome::Refuse(Refusal::OutOfTurn))
                } else if count == 0 {
                    (Phase::Failed, Outcome::Refuse(Refusal::NoContent))
                } else if cancelled {
                    (Phase::Failed, Outcome::Refuse(Refusal::Cancelled))
                } else {
                    (Phase::StoringChunks, Outcome::StoreChunks)
                },
                PipelineEvent::ChunksStored => if self.at() != Phase::StoringChunks {
                    (Phase::Failed, Outcome::Refuse(Refusal::OutOfTurn))
                } else if self.model() {
                    (Phase::Embedding, Outcome::Embed)
                } else {
                    (Phase::Completed, Outcome::Complete)
                },
                PipelineEvent::Embedded { count } => if self.at() != Phase::Embedding {
                    (Phase::Failed, Outcome::Refuse(Refusal::OutOfTurn))
                } else if count != self.chunks() {
                    (Phase::Failed, Outcome::Refuse(Refusal::Mismatch))
                } else {
                    (Phase::Indexing, Outcome::StoreEmbeddings)
                },
                PipelineEvent::EmbeddingsStored => if self.at() != Phase::Indexing {
                    (Phase::Failed, Outcome::Refuse(Refusal::OutOfTurn))
                } else {
                    (Phase::Completed, Outcome::Complete)
                },
            },
        }
    }

    /// The number of chunks that the machine holds after a step: the
    /// number reported, where the chunks go on to be stored; else the
    /// number it held.
    pub open spec fn chunks_after(self, event: PipelineEvent, o: Outcome) -> int {
        match (event, o) {
            (PipelineEvent::Chunked { count }, Outcome::StoreChunks) => count as int,
            _ => self.chunks(),
        }
    }

    /// The number of embeddings that the machine holds after a step: the
    /// number reported, where the embeddings go on to be stored; else the
    /// number it held.
    pub open spec fn embeddings_after(self, event: PipelineEvent, o: Outcome) -> int {
        match (event, o) {
            (PipelineEvent::Embedded { count }, Outcome::StoreEmbeddings) => count as int,
            _ => self.embeddings(),
        }
    }

    /// Whether an action is what an outcome stands for.
    pub open spec fn action_matches(action: PipelineAction, o: Outcome, event: PipelineEvent) -> bool {
        match o {
            Outcome::Extract(e) => action == PipelineAction::Extract(e),
            Outcome::Chunk => action is Chunk,
            Outcome::StoreChunks => action is StoreChunks,
            Outcome::Embed => action is Embed,
            Outcome::StoreEmbeddings => action is StoreEmbeddings,
            Outcome::Complete => action is Complete,
            Outcome::Refuse(r) => action matches PipelineAction::Fail(e) && is_refusal(e, r),
            Outcome::FailOutside => action matches PipelineAction::Fail(e)
                && event matches PipelineEvent::Failed(cause) && e == cause,
            Outcome::Nothing => action is Nothing,
        }
    }

    /// The ingestion of document `document_id`, queued.
    pub fn new(document_id: String, file_type: FileType, has_model: bool) -> (p: Pipeline)
        ensures
            p.wf(),
            p.document() == document_id@,
            p.kind() == file_type,
            p.model() == has_model,
            p.at() == Phase::Queued,
            p.chunks() == 0,
            p.embeddings() == 0,
    {
        Pipeline {
            document_id,
            file_type,
            has_model,
            phase: Phase::Queued,
            chunk_count: 0,
            embedded_count: 0,
        }
    }

    /// Where the machine stands.
    pub fn phase(&self) -> (p: Phase)
        ensures
            p == self.at(),
    {
        self.phase
    }

    /// The number of chunks that were cut.
    pub fn chunk_count(&self) -> (n: usize)
        ensures
            n == self.chunks(),
    {
        self.chunk_count
    }

    /// The number of embeddings that were returned.
    pub fn embedded_count(&self) -> (n: usize)
        ensures
            n == self.embeddings(),
    {
        self.embedded_count
    }

    /// The id of the document that is ingested.
    pub fn document_id(&self) -> (id: &String)
        ensures
            id@ == self.document(),
    {
        &self.document_id
    }

    fn fail(&mut self, r: Refusal) -> (a: PipelineAction)
        requires
            old(self).wf(),
        ensures
            final(self).wf(),
            final(self).at() == Phase::Failed,
            final(self).document() == old(self).document(),
            final(self).kind() == old(self).kind(),
            final(self).model() == old(self).model(),
            final(self).chunks() == old(self).chunks(),
            final(self).embeddings() == old(self).embeddings(),
            a matches PipelineAction::Fail(e) && is_refusal(e, r),
    {
        self.phase = Phase::Failed;
        PipelineAction::Fail(refuse(r))
    }

    /// Takes an event and says what is to be done next.
    ///
    /// A request to stop the document's ingestion is looked for when the
    /// document's turn comes, after extraction, and after chunking, before
    /// any chunk is stored; where one is found it is taken out of
    /// `cancelled` and the ingestion fails as cancelled: no chunk and no
    /// embedding has gone to the store by then. The machine keeps the
    /// number of chunks and of embeddings that were reported to it. An
    /// ingestion that has ended takes no more events.
    pub fn step(&mut self, event: PipelineEvent, cancelled: &mut CancellationSet) -> (action:
        PipelineAction)
        requires
            old(self).wf(),
        ensures
            final(self).wf(),
            final(self).document() == old(self).document(),
            final(self).kind() == old(self).kind(),
            final(self).model() == old(self).model(),
            ({
                let (phase, o) = old(self).outcome(
                    event,
                    old(cancelled).ids().contains(old(self).document()),
                );
                &&& final(self).at() == phase
                &&& Pipeline::action_matches(action, o, event)
                &&& final(self).chunks() == old(self).chunks_after(event, o)
                &&& final(self).embeddings() == old(self).embeddings_after(event, o)
                &&& final(cancelled).ids() == if o == Outcome::Refuse(Refusal::Cancelled) {
                    old(cancelled).ids().remove(old(self).document())
                } else {
                    old(cancelled).ids()
                }
            }),
            old(self).outcome(event, old(cancelled).ids().contains(old(self).document())).1
                == Outcome::Refuse(Refusal::Cancelled) ==> final(self).chunks() == 0
                && final(self).embeddings() == 0,
            final(self).at() == Phase::Completed ==> final(self).chunks() >= 1,
            final(self).at() == Phase::Completed ==> (final(self).embeddings() == 0
                || final(self).embeddings() == final(self).chunks()),
            old(self).at() == Phase::Completed ==> final(self).at() == Phase::Completed,
            old(self).at() == Phase::Failed ==> final(self).at() == Phase::Failed,
    {
        match self.phase {
            Phase::Completed | Phase::Failed => {
                return PipelineAction::Nothing;
            },
            _ => {},
        }
        match event {
            PipelineEvent::Failed(cause) => {
                self.phase = Phase::Failed;
                PipelineAction::Fail(cause)
            },
            PipelineEvent::Started => {
                match self.phase {
                    Phase::Queued => {},
                    _ => {
                        return self.fail(Refusal::OutOfTurn);
                    },
                }
                if cancelled.is_cancelled(self.document_id.as_str()) {
                    cancelled.clear_cancelled(self.document_id.as_str());
                    return self.fail(Refusal::Cancelled);
                }
                match extractor_for(self.file_type) {
                    None => self.fail(Refusal::UnsupportedType),
                    Some(e) => {
                        let needs = match e {
                            Extractor::Video | Extractor::Audio | Extractor::Image => true,
                            _ => false,
                        };
                        if needs && !self.has_model {
                            self.fail(Refusal::NoModel)
                        } else {
                            self.phase = Phase::Extracting;
                            PipelineAction::Extract(e)
                        }
                    },
                }
            },
            PipelineEvent::Extracted => {
                match self.phase {
                    Phase::Extracting => {},
                    _ => {
                        return self.fail(Refusal::OutOfTurn);
                    },
                }
                if cancelled.is_cancelled(self.document_id.as_str()) {
                    cancelled.clear_cancelled(self.document_id.as_str());
                    return self.fail(Refusal::Cancelled);
                }
                self.phase = Phase::Chunking;
                PipelineAction::Chunk
            },
            PipelineEvent::Chunked { count } => {
                match self.phase {
                    Phase::Chunking => {},
                    _ => {
                        return self.fail(Refusal::OutOfTurn);
                    },
                }
                if count == 0 {
                    return self.fail(Refusal::NoContent);
                }
                if cancelled.is_cancelled(self.document_id.as_str()) {
                    cancelled.clear_cancelled(self.document_id.as_str());
                    return self.fail(Refusal::Cancelled);
                }
                self.chunk_count = count;
                self.phase = Phase::StoringChunks;
                PipelineAction::StoreChunks
            },
            PipelineEvent::ChunksStored => {
                match self.phase {
                    Phase::StoringChunks => {},
                    _ => {
                        return self.fail(Refusal::OutOfTurn);
                    },
                }
                if self.has_model {
                    self.phase = Phase::Embedding;
                    PipelineAction::Embed
                } else {
                    self.phase = Phase::Completed;
                    PipelineAction::Complete
                }
            },
            PipelineEvent::Embedded { count } => {
                match self.phase {
                    Phase::Embedding => {},
                    _ => {
                        return self.fail(Refusal::OutOfTurn);
                    },
                }
                if count != self.chunk_count {
                    return self.fail(Refusal::Mismatch);
                }
                self.embedded_count = count;
                self.phase = Phase::Indexing;
                PipelineAction::StoreEmbeddings
            },
            PipelineEvent::EmbeddingsStored => {
                match self.phase {
                    Phase::Indexing => {},
                    _ => {
                        return self.fail(Refusal::OutOfTurn);
                    },
                }
                self.phase = Phase::Completed;
                PipelineAction::Complete
            },
        }
    }

    /// The stage that a phase is shown as.
    pub open spec fn stage_of(phase: Phase) -> IngestionStage {
        match phase {
            Phase::Queued => IngestionStage::Queued,
            Phase::Extracting => IngestionStage::Extracting,
            Phase::Chunking | Phase::StoringChunks => IngestionStage::Chunking,
            Phase::Embedding => IngestionStage::Embedding,
            Phase::Indexing => IngestionStage::Indexing,
            Phase::Completed => IngestionStage::Completed,
            Phase::Failed => IngestionStage::Failed,
        }
    }

    /// The percentage that a phase is shown with.
    pub open spec fn percent_of(phase: Phase) -> u8 {
        match phase {
            Phase::Queued => 0,
            Phase::Extracting => 10,
            Phase::Chunking | Phase::StoringChunks => 30,
            Phase::Embedding => 50,
            Phase::Indexing => 80,
            Phase::Completed => 100,
            Phase::Failed => 0,
        }
    }

    /// The stage that the machine's phase is shown as.
    pub fn stage(&self) -> (s: IngestionStage)
        ensures
            s == Pipeline::stage_of(self.at()),
    {
        match self.phase {
            Phase::Queued => IngestionStage::Queued,
            Phase::Extracting => IngestionStage::Extracting,
            Phase::Chunking | Phase::StoringChunks => IngestionStage::Chunking,
            Phase::Embedding => IngestionStage::Embedding,
            Phase::Indexing => IngestionStage::Indexing,
            Phase::Completed => IngestionStage::Completed,
            Phase::Failed => IngestionStage::Failed,
        }
    }

    /// The percentage that the machine's phase is shown with.
    pub fn percent(&self) -> (p: u8)
        ensures
            p == Pipeline::percent_of(self.at()),
            p <= 100,
    {
        match self.phase {
            Phase::Queued => 0,
            Phase::Extracting => 10,
            Phase::Chunking | Phase::StoringChunks => 30,
            Phase::Embedding => 50,
            Phase::Indexing => 80,
            Phase::Completed => 100,
            Phase::Failed => 0,
        }
    }
}

/// The message shown while a file of a kind is extracted.
pub open spec fn extraction_message(file_type: FileType) -> Seq<char> {
    match file_type {
        FileType::Pdf => "Extracting PDF (may use OCR)..."@,
        FileType::Image | FileType::Screenshot => "Running OCR on image..."@,
        FileType::Video => "Processing video frames..."@,
        FileType::Audio => "Transcribing audio..."@,
        _ => "Extracting content..."@,
    }
}

/// The message shown while a file of kind `file_type` is extracted.
pub fn extraction_message_for(file_type: FileType) -> (m: &'static str)
    ensures
        m@ == extraction_message(file_type),
{
    match file_type {
        FileType::Pdf => "Extracting PDF (may use OCR)...",
        FileType::Image | FileType::Screenshot => "Running OCR on image...",
        FileType::Video => "Processing video frames...",
        FileType::Audio => "Transcribing audio...",
        _ => "Extracting content...",
    }
}

/// The message shown while `count` chunks are embedded.
pub fn embedding_message(count: usize) -> (m: String)
    ensures
        m@ == "Generating embeddings for "@ + decimal(count as nat) + " chunks..."@,
{
    let mut m = String::new();
    m.append("Generating embeddings for ");
    push_decimal(&mut m, count as u64);
    m.append(" chunks...");
    proof {
        assert(m@ =~= "Generating embeddings for "@ + decimal(count as nat) + " chunks..."@);
    }
    m
}

/// The message shown for a file that waits at place `position` of a
/// queue of that length.
pub fn queue_message(position: usize) -> (m: String)
    ensures
        m@ == if position > 1 {
            "Queued (position "@ + decimal(position as nat) + " of "@ + decimal(position as nat)
                + ")"@
        } else {
            "Queued for processing"@
        },
{
    if position > 1 {
        let mut m = String::new();
        m.append("Queued (position ");
        push_decimal(&mut m, position as u64);
        m.append(" of ");
        push_decimal(&mut m, position as u64);
        m.append(")");
        proof {
            assert(m@ =~= "Queued (position "@ + decimal(position as nat) + " of "@ + decimal(
                position as nat,
            ) + ")"@);
        }
        m
    } else {
        "Queued for processing".to_owned()
    }
}

} // verus!
