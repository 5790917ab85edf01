//! The use cases of the pipeline: ingesting a document, retrieving context
//! for a query and answering a prompt.
//!
//! Each use case is a sequence of states. A state is reached together with a
//! request to the embedding model, the vector store or the generator; the
//! caller performs the request and hands its outcome to the state, which
//! gives the next state and request, or the end result. An outcome is `Ok`
//! with what the service returned, or `Err` with the cause as text.

use vstd::prelude::*;
use crate::chunker::{chunk_text, chunked};
use crate::config::PipelineConfig;
use crate::errors::{caused, describe, Error, ErrorKind, ErrorView};
use crate::payload::{
    chunk_payload, lemma_chunk_payload_fields, lemma_metadata_round_trip, DocumentMetadata,
    MetadataView, Payload, ValueView,
};
use crate::retrieval::{
    decoded, hits_view, render_context, results_view, retrieval_context, retrieved, select,
    stored_metadata, SearchHit, SearchHitView, SearchResult, SearchResultView,
};
use crate::score::Score;
use crate::stamp::{fresh_id, is_uuid_text, unix_seconds};
use crate::text::{decimal, push_decimal, views};

verus! {

/// A request to embed a text.
#[derive(Debug)]
pub struct EmbedRequest {
    pub model: String,
    pub text: String,
}

/// A request for the points nearest to a vector.
#[derive(Debug)]
pub struct SearchRequest<V> {
    pub collection: String,
    pub vector: V,
    pub limit: u64,
    pub with_payload: bool,
    pub with_vectors: bool,
}

/// A request to generate text from a prompt.
#[derive(Debug)]
pub struct GenerateRequest {
    pub model: String,
    pub prompt: String,
}

/// A point of the vector store: an identifier, a vector and a payload.
#[derive(Debug)]
pub struct Point<V> {
    pub id: String,
    pub vector: V,
    pub payload: Payload,
}

/// The mathematical content of a [`Point`].
pub struct PointView<V> {
    pub id: Seq<char>,
    pub vector: V,
    pub payload: Seq<(Seq<char>, ValueView)>,
}

impl<V> View for Point<V> {
    type V = PointView<V>;

    open spec fn view(&self) -> PointView<V> {
        PointView { id: self.id@, vector: self.vector, payload: self.payload@ }
    }
}

/// The contents of a list of points.
pub open spec fn points_view<V>(points: Seq<Point<V>>) -> Seq<PointView<V>> {
    Seq::new(points.len(), |i: int| points[i]@)
}

/// A request to write points in one batch.
#[derive(Debug)]
pub struct UpsertRequest<V> {
    pub collection: String,
    pub points: Vec<Point<V>>,
}

/// The failure of the embedding model with the given cause.
pub open spec fn embedding_failure(cause: Seq<char>) -> ErrorView {
    ErrorView { kind: ErrorKind::Embedding, message: caused("Error generating embeddings"@, cause) }
}

/// The failure of a search with the given cause.
pub open spec fn search_failure(cause: Seq<char>) -> ErrorView {
    ErrorView { kind: ErrorKind::VectorStore, message: caused("Error searching points"@, cause) }
}

/// The failure of a write with the given cause.
pub open spec fn upsert_failure(cause: Seq<char>) -> ErrorView {
    ErrorView { kind: ErrorKind::VectorStore, message: caused("Error upserting points"@, cause) }
}

/// The failure of the generator with the given cause.
pub open spec fn generation_failure(cause: Seq<char>) -> ErrorView {
    ErrorView { kind: ErrorKind::Generation, message: caused("Error generating response"@, cause) }
}

/// The summary of an ingestion of `total` chunks.
pub open spec fn summary(total: nat) -> Seq<char> {
    "Successfully added "@ + decimal(total) + " chunks"@
}

/// The prompt for the generator. Four sections in a fixed order: the user's
/// question, the previous conversation, the retrieved documents and the
/// instructions.
pub open spec fn metaprompt(question: Seq<char>, previous: Seq<char>, documents: Seq<char>) -> Seq<
    char,
> {
    "User's question:\n"@ + question + "\n\n            Previous conversation:\n"@ + previous
        + "\n\n            Relevant documents:\n"@ + documents + instructions()
}

/// The instructions that end every prompt: answer naturally, use the context,
/// do not mention that the answer comes from stored history, stay in
/// character.
pub open spec fn instructions() -> Seq<char> {
    "\n\n            Please provide a natural, conversational response to the user's question, \n            incorporating relevant information from the provided context and documents.\n            Focus on the most relevant information and maintain a coherent narrative.\n            Do not mention that the answer comes from stored history, and stay in character.\n            Answer:"@
}

/// The reply that reports a failure at the given stage.
pub open spec fn failure_reply(stage: Seq<char>, failure: ErrorView) -> Seq<char> {
    caused(stage, failure.message)
}

/// The metadata of chunk `index` of a document cut into `total` chunks.
pub open spec fn chunk_metadata(
    document: Seq<char>,
    source: Seq<char>,
    index: nat,
    total: nat,
    stamp: int,
) -> MetadataView {
    MetadataView {
        original_text: document,
        chunk_index: index,
        total_chunks: total,
        timestamp: stamp,
        source,
    }
}

/// Whether `points` are the first points of the batch for a document: point
/// `k` holds chunk `k` with the document, the source, the position `k`, the
/// number of chunks and the time `stamps[k]`, and no time is earlier than the
/// one before it.
pub open spec fn is_batch_prefix<V>(
    points: Seq<PointView<V>>,
    document: Seq<char>,
    source: Seq<char>,
    chunks: Seq<Seq<char>>,
    stamps: Seq<int>,
) -> bool {
    &&& points.len() == stamps.len()
    &&& points.len() <= chunks.len()
    &&& forall|k: int|
        0 <= k < points.len() ==> (#[trigger] points[k]).payload == chunk_payload(
            chunks[k],
            chunk_metadata(document, source, k as nat, chunks.len(), stamps[k]),
        )
    &&& forall|a: int, b: int| 0 <= a <= b < stamps.len() ==> stamps[a] <= stamps[b]
}

/// Whether `points` are the whole batch for a document: one point for each
/// chunk, in order.
pub open spec fn is_batch<V>(
    points: Seq<PointView<V>>,
    document: Seq<char>,
    source: Seq<char>,
    chunks: Seq<Seq<char>>,
    stamps: Seq<int>,
) -> bool {
    is_batch_prefix(points, document, source, chunks, stamps) && points.len() == chunks.len()
}

/// In a whole batch the positions written into the points are the positions
/// of the points: point `k` reads back as chunk `k` of as many chunks as the
/// batch has points. So the positions run from zero to the number of chunks
/// less one, without a gap and without a repeat. This holds where the number
/// of chunks is within what an `i64` can hold.
pub proof fn lemma_batch_positions<V>(
    points: Seq<PointView<V>>,
    document: Seq<char>,
    source: Seq<char>,
    chunks: Seq<Seq<char>>,
    stamps: Seq<int>,
    k: int,
)
    requires
        is_batch(points, document, source, chunks, stamps),
        0 <= k < points.len(),
        chunks.len() <= i64::MAX,
        chunks.len() <= usize::MAX,
    ensures
        stored_metadata(points[k].payload) matches Some(metadata) && metadata.chunk_index == k
            && metadata.total_chunks == points.len() && metadata.original_text == document
            && metadata.source == source && metadata.timestamp == stamps[k]
            && DocumentMetadata::in_range(metadata),
{
    let metadata = chunk_metadata(document, source, k as nat, chunks.len(), stamps[k]);
    lemma_chunk_payload_fields(chunks[k], metadata);
    lemma_metadata_round_trip(metadata);
}

/// A point of a whole batch, when a search returns its payload, is read as
/// the chunk it was made of, with the score of the hit.
pub proof fn lemma_batch_point_is_found<V>(
    points: Seq<PointView<V>>,
    document: Seq<char>,
    source: Seq<char>,
    chunks: Seq<Seq<char>>,
    stamps: Seq<int>,
    k: int,
    score: Score,
)
    requires
        is_batch(points, document, source, chunks, stamps),
        0 <= k < points.len(),
        chunks.len() <= i64::MAX,
        chunks.len() <= usize::MAX,
    ensures
        decoded(SearchHitView { score, payload: points[k].payload }) == Ok::<
            SearchResultView,
            ErrorView,
        >(
            SearchResultView {
                text: chunks[k],
                score,
                metadata: chunk_metadata(document, source, k as nat, chunks.len(), stamps[k]),
            },
        ),
{
    let metadata = chunk_metadata(document, source, k as nat, chunks.len(), stamps[k]);
    lemma_chunk_payload_fields(chunks[k], metadata);
    lemma_metadata_round_trip(metadata);
}

/// `a`, or `b` where that is later.
pub open spec fn later(a: int, b: int) -> int {
    if a >= b {
        a
    } else {
        b
    }
}

/// The use cases, with the configuration they work under.
#[derive(Debug)]
pub struct UsecasesImpl {
    pub config: PipelineConfig,
}

/// An ingestion that waits for the embedding of its next chunk.
pub struct Ingestion<V> {
    document: String,
    source: String,
    model: String,
    collection: String,
    chunks: Vec<String>,
    points: Vec<Point<V>>,
    latest: i64,
    stamps: Ghost<Seq<int>>,
}

/// An ingestion that waits for the vector store to acknowledge its batch.
#[derive(Debug)]
pub struct Upserting {
    /// The number of chunks in the batch.
    pub total: usize,
}

/// What an ingestion does after an embedding.
pub enum IngestStep<V> {
    /// Embed the next chunk and hand the outcome to the state.
    Embed(Ingestion<V>, EmbedRequest),
    /// All chunks are embedded: write the batch and hand the outcome to the
    /// state.
    Upsert(Upserting, UpsertRequest<V>),
    /// The embedding failed: the ingestion ends and nothing is written.
    Failed(Error),
}

impl<V> Ingestion<V> {
    #[verifier::type_invariant]
    spec fn inv(self) -> bool {
        &&& self.points@.len() < self.chunks@.len()
        &&& is_batch_prefix(
            points_view(self.points@),
            self.document@,
            self.source@,
            views(self.chunks@),
            self.stamps@,
        )
        &&& forall|k: int| 0 <= k < self.stamps@.len() ==> self.stamps@[k] <= self.latest
    }

    /// The document that is ingested.
    pub closed spec fn document(self) -> Seq<char> {
        self.document@
    }

    /// The origin of the document.
    pub closed spec fn source(self) -> Seq<char> {
        self.source@
    }

    /// The embedding model.
    pub closed spec fn model(self) -> Seq<char> {
        self.model@
    }

    /// The collection that the batch goes to.
    pub closed spec fn collection(self) -> Seq<char> {
        self.collection@
    }

    /// The chunks of the document.
    pub closed spec fn chunks(self) -> Seq<Seq<char>> {
        views(self.chunks@)
    }

    /// The points made so far, one for each chunk that is embedded.
    pub closed spec fn points(self) -> Seq<PointView<V>> {
        points_view(self.points@)
    }

    /// The times of the points made so far.
    pub closed spec fn stamps(self) -> Seq<int> {
        self.stamps@
    }

    /// The latest time given to a point, or the least `i64` before the first.
    pub closed spec fn latest(self) -> int {
        self.latest as int
    }

    /// Whether the points made so far are the first points of the batch, and
    /// a chunk is left to embed.
    pub open spec fn in_progress(self) -> bool {
        &&& self.points().len() < self.chunks().len()
        &&& is_batch_prefix(
            self.points(),
            self.document(),
            self.source(),
            self.chunks(),
            self.stamps(),
        )
    }

    /// The text that waits to be embedded: the chunk after those that have a
    /// point.
    pub open spec fn awaited(self) -> Seq<char> {
        self.chunks()[self.points().len() as int]
    }

    /// Whether `next` goes on with the same document under the same
    /// configuration.
    pub open spec fn continues(self, next: Ingestion<V>) -> bool {
        &&& next.document() == self.document()
        &&& next.source() == self.source()
        &&& next.model() == self.model()
        &&& next.collection() == self.collection()
        &&& next.chunks() == self.chunks()
    }

    /// The point made of the awaited chunk with the given identifier, vector
    /// and time.
    pub open spec fn point_for(self, id: Seq<char>, vector: V, stamp: int) -> PointView<V> {
        PointView {
            id,
            vector,
            payload: chunk_payload(
                self.awaited(),
                chunk_metadata(
                    self.document(),
                    self.source(),
                    self.points().len(),
                    self.chunks().len(),
                    stamp,
                ),
            ),
        }
    }

    /// Whether `step` is what follows on `outcome`, where a new point gets the
    /// identifier `id` and the clock reads `now`.
    ///
    /// A failed embedding ends the ingestion. A vector becomes the point of
    /// the awaited chunk; its time is `now`, or the time of the point before
    /// it where the clock has gone back. Where a chunk is left, its embedding
    /// is asked for; else the whole batch is handed out for one write.
    pub open spec fn recorded(
        self,
        outcome: Result<V, String>,
        id: Seq<char>,
        now: int,
        step: IngestStep<V>,
    ) -> bool {
        match outcome {
            Err(cause) => step matches IngestStep::Failed(e) && e@ == embedding_failure(cause@),
            Ok(vector) => {
                let stamp = later(now, self.latest());
                let points = self.points().push(self.point_for(id, vector, stamp));
                let stamps = self.stamps().push(stamp);
                if points.len() < self.chunks().len() {
                    &&& step matches IngestStep::Embed(next, request)
                    &&& self.continues(next)
                    &&& next.points() == points
                    &&& next.stamps() == stamps
                    &&& next.latest() == stamp
                    &&& next.in_progress()
                    &&& request.model@ == self.model()
                    &&& request.text@ == next.awaited()
                } else {
                    &&& step matches IngestStep::Upsert(upserting, request)
                    &&& upserting.total == self.chunks().len()
                    &&& request.collection@ == self.collection()
                    &&& points_view(request.points@) == points
                    &&& is_batch(points, self.document(), self.source(), self.chunks(), stamps)
                }
            },
        }
    }

    /// Takes the outcome of the embedding that was asked for, with the
    /// identifier and the clock reading to give to the new point.
    pub fn record(self, outcome: Result<V, String>, id: String, now: i64) -> (step: IngestStep<V>)
        ensures
            self.recorded(outcome, id@, now as int, step),
    {
        proof {
            use_type_invariant(&self);
        }
        match outcome {
            Err(cause) => IngestStep::Failed(
                Error::because(
                    ErrorKind::Embedding,
                    "Error generating embeddings",
                    cause.as_str(),
                ),
            ),
            Ok(vector) => {
                let ghost before = self;
                let Ingestion {
                    document,
                    source,
                    model,
                    collection,
                    chunks,
                    mut points,
                    latest,
                    stamps,
                } = self;
                let index = points.len();
                let total = chunks.len();
                let stamp = if now >= latest {
                    now
                } else {
                    latest
                };
                let metadata = DocumentMetadata {
                    original_text: document.clone(),
                    chunk_index: index,
                    total_chunks: total,
                    timestamp: stamp,
                    source: source.clone(),
                };
                let payload = Payload::for_chunk(chunks[index].as_str(), &metadata);
                let ghost old_points = points_view(points@);
                let ghost old_stamps = stamps@;
                let ghost new_stamps = old_stamps.push(stamp as int);
                let ghost point = before.point_for(id@, vector, stamp as int);
                points.push(Point { id, vector, payload });
                proof {
                    assert(points_view(points@) =~= old_points.push(point));
                    assert(is_batch_prefix(
                        points_view(points@),
                        document@,
                        source@,
                        views(chunks@),
                        new_stamps,
                    ));
                }
                if index + 1 < total {
                    let request = EmbedRequest {
                        model: model.clone(),
                        text: chunks[index + 1].clone(),
                    };
                    let next = Ingestion {
                        document,
                        source,
                        model,
                        collection,
                        chunks,
                        points,
                        latest: stamp,
                        stamps: Ghost(new_stamps),
                    };
                    IngestStep::Embed(next, request)
                } else {
                    let request = UpsertRequest { collection, points };
                    IngestStep::Upsert(Upserting { total }, request)
                }
            },
        }
    }

    /// Takes the outcome of the embedding that was asked for. The new point
    /// gets a fresh random identifier and the time of the clock: the step is
    /// the one that [`Ingestion::record`] gives for some identifier with the
    /// shape of a UUID and some reading of the clock.
    pub fn embedded(self, outcome: Result<V, String>) -> (step: IngestStep<V>)
        ensures
            exists|id: Seq<char>, now: int|
                is_uuid_text(id) && #[trigger] self.recorded(outcome, id, now, step),
    {
        let id = fresh_id();
        let now = unix_seconds();
        let ghost id_text = id@;
        let step = self.record(outcome, id, now);
        assert(is_uuid_text(id_text) && self.recorded(outcome, id_text, now as int, step));
        step
    }
}

impl Upserting {
    /// Takes the outcome of the write: the summary of the ingestion where the
    /// batch was written, else the failure.
    pub fn upserted(self, outcome: Result<(), String>) -> (result: Result<String, Error>)
        ensures
            match outcome {
                Ok(_) => result matches Ok(text) && text@ == summary(self.total as nat),
                Err(cause) => result matches Err(e) && e@ == upsert_failure(cause@),
            },
    {
        match outcome {
            Ok(_) => {
                let mut text = String::from_str("Successfully added ");
                push_decimal(&mut text, self.total as u64);
                text.append(" chunks");
                assert(text@ =~= summary(self.total as nat));
                Ok(text)
            },
            Err(cause) => Err(
                Error::because(ErrorKind::VectorStore, "Error upserting points", cause.as_str()),
            ),
        }
    }
}

/// A retrieval that waits for the embedding of its query.
#[derive(Debug)]
pub struct Retrieval {
    pub collection: String,
    pub limit: u64,
    pub threshold: Score,
}

/// A retrieval that waits for the hits of its search.
#[derive(Debug)]
pub struct Searching {
    pub threshold: Score,
}

impl Retrieval {
    /// Takes the outcome of the embedding: the search for the points nearest
    /// to the vector, with payloads and vectors, or the failure.
    pub fn embedded<V>(self, outcome: Result<V, String>) -> (result: Result<
        (Searching, SearchRequest<V>),
        Error,
    >)
        ensures
            match outcome {
                Ok(vector) => {
                    &&& result matches Ok((searching, request))
                    &&& searching.threshold == self.threshold
                    &&& request.collection@ == self.collection@
                    &&& request.vector == vector
                    &&& request.limit == self.limit
                    &&& request.with_payload
                    &&& request.with_vectors
                },
                Err(cause) => result matches Err(e) && e@ == embedding_failure(cause@),
            },
    {
        match UsecasesImpl::embedding(outcome) {
            Ok(vector) => Ok(
                (
                    Searching { threshold: self.threshold },
                    SearchRequest {
                        collection: self.collection,
                        vector,
                        limit: self.limit,
                        with_payload: true,
                        with_vectors: true,
                    },
                ),
            ),
            Err(e) => Err(e),
        }
    }
}

impl Searching {
    /// The results of a search: the chunks of the hits whose score reaches
    /// the threshold and whose payload holds a chunk, in the order of the
    /// response; or the failure of the search.
    pub fn doc_searching(self, outcome: Result<Vec<SearchHit>, String>) -> (result: Result<
        Vec<SearchResult>,
        Error,
    >)
        ensures
            match outcome {
                Ok(hits) => result matches Ok(results) && results_view(results@) == retrieved(
                    hits_view(hits@),
                    self.threshold,
                ),
                Err(cause) => result matches Err(e) && e@ == search_failure(cause@),
            },
    {
        match outcome {
            Ok(hits) => Ok(select(hits, self.threshold)),
            Err(cause) => Err(
                Error::because(ErrorKind::VectorStore, "Error searching points", cause.as_str()),
            ),
        }
    }

    /// Takes the outcome of the search: the context text of the response, or
    /// the failure of the search. The context is empty where no hit survives.
    pub fn found(self, outcome: Result<Vec<SearchHit>, String>) -> (result: Result<String, Error>)
        ensures
            match outcome {
                Ok(hits) => result matches Ok(context) && context@ == retrieval_context(
                    hits_view(hits@),
                    self.threshold,
                ),
                Err(cause) => result matches Err(e) && e@ == search_failure(cause@),
            },
    {
        match self.doc_searching(outcome) {
            Ok(results) => Ok(render_context(&results)),
            Err(e) => Err(e),
        }
    }
}

/// What a chat does next: a state with the request to perform, or the reply
/// that ends it.
pub enum ChatStep<S, R> {
    Ask(S, R),
    Reply(String),
}

/// A chat that waits for the embedding of its prompt.
#[derive(Debug)]
pub struct Chatting {
    pub prompt: String,
    pub context: String,
    pub model: String,
    pub retrieval: Retrieval,
}

/// A chat that waits for the hits of its search.
#[derive(Debug)]
pub struct ChatSearching {
    pub prompt: String,
    pub context: String,
    pub model: String,
    pub searching: Searching,
}

/// A chat that waits for the generator.
#[derive(Debug)]
pub struct Generating {
    pub prompt: String,
}

/// The prompt for the generator, as a string.
pub fn assemble_prompt(question: &str, previous: &str, documents: &str) -> (prompt: String)
    ensures
        prompt@ == metaprompt(question@, previous@, documents@),
{
    let mut prompt = String::from_str("User's question:\n");
    prompt.append(question);
    prompt.append("\n\n            Previous conversation:\n");
    prompt.append(previous);
    prompt.append("\n\n            Relevant documents:\n");
    prompt.append(documents);
    prompt.append(
        "\n\n            Please provide a natural, conversational response to the user's question, \n            incorporating relevant information from the provided context and documents.\n            Focus on the most relevant information and maintain a coherent narrative.\n            Do not mention that the answer comes from stored history, and stay in character.\n            Answer:",
    );
    assert(prompt@ =~= metaprompt(question@, previous@, documents@));
    prompt
}

impl Chatting {
    /// Takes the outcome of the embedding of the prompt: the search to
    /// perform, or the reply that reports the failure.
    pub fn embedded<V>(self, outcome: Result<V, String>) -> (step: ChatStep<
        ChatSearching,
        SearchRequest<V>,
    >)
        ensures
            match outcome {
                Ok(vector) => {
                    &&& step matches ChatStep::Ask(next, request)
                    &&& next.prompt@ == self.prompt@
                    &&& next.context@ == self.context@
                    &&& next.model@ == self.model@
                    &&& next.searching.threshold == self.retrieval.threshold
                    &&& request.collection@ == self.retrieval.collection@
                    &&& request.vector == vector
                    &&& request.limit == self.retrieval.limit
                    &&& request.with_payload
                    &&& request.with_vectors
                },
                Err(cause) => step matches ChatStep::Reply(reply) && reply@ == failure_reply(
                    "Error generating embeddings"@,
                    embedding_failure(cause@),
                ),
            },
    {
        let Chatting { prompt, context, model, retrieval } = self;
        match retrieval.embedded(outcome) {
            Ok((searching, request)) => ChatStep::Ask(
                ChatSearching { prompt, context, model, searching },
                request,
            ),
            Err(e) => ChatStep::Reply(describe("Error generating embeddings", e.message.as_str())),
        }
    }
}

impl ChatSearching {
    /// Takes the outcome of the search: the request to the generator, whose
    /// prompt holds the question, the previous conversation and the context
    /// text of the response; or the reply that reports the failure.
    pub fn found(self, outcome: Result<Vec<SearchHit>, String>) -> (step: ChatStep<
        Generating,
        GenerateRequest,
    >)
        ensures
            match outcome {
                Ok(hits) => {
                    &&& step matches ChatStep::Ask(next, request)
                    &&& next.prompt@ == self.prompt@
                    &&& request.model@ == self.model@
                    &&& request.prompt@ == metaprompt(
                        self.prompt@,
                        self.context@,
                        retrieval_context(hits_view(hits@), self.searching.threshold),
                    )
                },
                Err(cause) => step matches ChatStep::Reply(reply) && reply@ == failure_reply(
                    "Error searching documents"@,
                    search_failure(cause@),
                ),
            },
    {
        let ChatSearching { prompt, context, model, searching } = self;
        match searching.found(outcome) {
            Ok(documents) => {
                let text = assemble_prompt(prompt.as_str(), context.as_str(), documents.as_str());
                ChatStep::Ask(Generating { prompt }, GenerateRequest { model, prompt: text })
            },
            Err(e) => ChatStep::Reply(describe("Error searching documents", e.message.as_str())),
        }
    }
}

/// The reply of a chat on the outcome of its generation: the generated text
/// as it is, or the description of the generator's failure.
pub open spec fn reply_of(outcome: Result<String, String>) -> Seq<char> {
    match outcome {
        Ok(text) => text@,
        Err(cause) => generation_failure(cause@).message,
    }
}

impl Generating {
    /// Takes the outcome of the generation: the reply.
    pub fn generated(self, outcome: Result<String, String>) -> (reply: String)
        ensures
            reply@ == reply_of(outcome),
    {
        match UsecasesImpl::generation(outcome) {
            Ok(text) => text,
            Err(e) => e.message,
        }
    }
}

/// The use cases that a conversation turn is made of. Each starts a sequence
/// of states: the first state, with the first request to perform.
pub trait Usecases {
    /// The configuration that the use cases work under.
    spec fn configuration(&self) -> PipelineConfig;

    /// Starts the ingestion of a document: it is cut into chunks, and the
    /// first chunk is to be embedded.
    fn doc_adding<V>(&self, prompt: String, source: String) -> (start: (
        Ingestion<V>,
        EmbedRequest,
    ))
        ensures
            start.0.document() == prompt@,
            start.0.source() == source@,
            start.0.model() == self.configuration().embedding_model@,
            start.0.collection() == self.configuration().collection@,
            start.0.chunks() == chunked(
                prompt@,
                self.configuration().chunk_size as nat,
                self.configuration().chunk_overlap as nat,
            ),
            start.0.points().len() == 0,
            start.0.stamps().len() == 0,
            start.0.latest() == i64::MIN,
            start.0.in_progress(),
            start.1.model@ == self.configuration().embedding_model@,
            start.1.text@ == start.0.awaited(),
    ;

    /// Starts the answer to `prompt`: the prompt is to be embedded, for the
    /// search of stored chunks that bear on it. `context` is the previous
    /// conversation and `model` the generator's model.
    fn chatting(&self, prompt: String, context: String, model: String) -> (start: (
        Chatting,
        EmbedRequest,
    ))
        ensures
            start.0.prompt@ == prompt@,
            start.0.context@ == context@,
            start.0.model@ == model@,
            start.0.retrieval.collection@ == self.configuration().collection@,
            start.0.retrieval.limit == self.configuration().search_limit,
            start.0.retrieval.threshold == self.configuration().relevance_threshold,
            start.1.model@ == self.configuration().embedding_model@,
            start.1.text@ == prompt@,
    ;
}

impl UsecasesImpl {
    /// The use cases under `config`.
    pub fn new(config: PipelineConfig) -> (usecases: UsecasesImpl)
        ensures
            usecases.config == config,
    {
        UsecasesImpl { config }
    }

    /// The chunks of a text under the configured size and overlap.
    pub fn chunk_text(&self, text: &str) -> (chunks: Vec<String>)
        ensures
            views(chunks@) == chunked(
                text@,
                self.config.chunk_size as nat,
                self.config.chunk_overlap as nat,
            ),
            chunks.len() >= 1,
    {
        chunk_text(text, self.config.chunk_size, self.config.chunk_overlap)
    }

    /// The request that embeds `prompt` with the configured model.
    pub fn embedding_request(&self, prompt: &str) -> (request: EmbedRequest)
        ensures
            request.model@ == self.config.embedding_model@,
            request.text@ == prompt@,
    {
        EmbedRequest { model: self.config.embedding_model.clone(), text: String::from_str(prompt) }
    }

    /// The outcome of an embedding as the pipeline sees it: the vector, or
    /// the failure of the embedding model with its cause.
    pub fn embedding<V>(outcome: Result<V, String>) -> (result: Result<V, Error>)
        ensures
            match outcome {
                Ok(vector) => result == Ok::<V, Error>(vector),
                Err(cause) => result matches Err(e) && e@ == embedding_failure(cause@),
            },
    {
        match outcome {
            Ok(vector) => Ok(vector),
            Err(cause) => Err(
                Error::because(
                    ErrorKind::Embedding,
                    "Error generating embeddings",
                    cause.as_str(),
                ),
            ),
        }
    }

    /// The outcome of a generation as the pipeline sees it: the generated
    /// text, or the failure of the generator with its cause.
    pub fn generation(outcome: Result<String, String>) -> (result: Result<String, Error>)
        ensures
            match outcome {
                Ok(text) => result == Ok::<String, Error>(text),
                Err(cause) => result matches Err(e) && e@ == generation_failure(cause@),
            },
    {
        match outcome {
            Ok(text) => Ok(text),
            Err(cause) => Err(
                Error::because(ErrorKind::Generation, "Error generating response", cause.as_str()),
            ),
        }
    }

    /// Starts the retrieval of context for `query`: the query is to be
    /// embedded.
    pub fn retrieve(&self, query: &str) -> (start: (Retrieval, EmbedRequest))
        ensures
            start.0.collection@ == self.config.collection@,
            start.0.limit == self.config.search_limit,
            start.0.threshold == self.config.relevance_threshold,
            start.1.model@ == self.config.embedding_model@,
            start.1.text@ == query@,
    {
        (
            Retrieval {
                collection: self.config.collection.clone(),
                limit: self.config.search_limit,
                threshold: self.config.relevance_threshold,
            },
            self.embedding_request(query),
        )
    }
}

impl Usecases for UsecasesImpl {
    open spec fn configuration(&self) -> PipelineConfig {
        self.config
    }

    fn doc_adding<V>(&self, prompt: String, source: String) -> (start: (
        Ingestion<V>,
        EmbedRequest,
    ))
    {
        let chunks = self.chunk_text(prompt.as_str());
        let request = EmbedRequest {
            model: self.config.embedding_model.clone(),
            text: chunks[0].clone(),
        };
        let points: Vec<Point<V>> = Vec::new();
        assert(views(chunks@).len() == chunks@.len());
        let ingestion = Ingestion {
            document: prompt,
            source,
            model: self.config.embedding_model.clone(),
            collection: self.config.collection.clone(),
            chunks,
            points,
            latest: i64::MIN,
            stamps: Ghost(Seq::empty()),
        };
        (ingestion, request)
    }

    fn chatting(&self, prompt: String, context: String, model: String) -> (start: (
        Chatting,
        EmbedRequest,
    ))
    {
        let (retrieval, request) = self.retrieve(prompt.as_str());
        (Chatting { prompt, context, model, retrieval }, request)
    }
}

} // verus!
