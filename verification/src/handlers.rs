//! One turn of a conversation: the prompt is ingested as chat history, the
//! reply is made with the context retrieved for it, and the exchange is
//! handed to the conversation log.

use vstd::prelude::*;
use crate::chunker::chunked;
use crate::errors::describe;
use crate::models::Chat;
use crate::retrieval::{hits_view, retrieval_context, SearchHit};
use crate::stamp::{fresh_id, is_uuid_text, unix_seconds};
use crate::usecases::{
    embedding_failure, failure_reply, metaprompt, reply_of, search_failure, summary,
    upsert_failure, ChatSearching, ChatStep, Chatting, EmbedRequest, GenerateRequest, Generating,
    IngestStep, Ingestion, SearchRequest, UpsertRequest, Upserting, Usecases,
};

verus! {

/// The source under which prompts are ingested.
pub open spec fn chat_history() -> Seq<char> {
    "chat_history"@
}

/// The handlers of conversation turns, over the use cases `T`.
#[derive(Debug)]
pub struct Handlers<T> {
    pub usecases: T,
}

/// A turn in the state `S` of one of its use cases.
pub struct Turn<'a, T, S> {
    /// The user's prompt.
    pub prompt: String,
    /// The generator's model.
    pub model: String,
    /// The use cases of the turn.
    pub usecases: &'a T,
    /// Where the use case stands.
    pub state: S,
}

/// What a turn does after an embedding of its ingestion.
pub enum TurnIngest<'a, T, V> {
    /// Embed the next chunk of the prompt.
    Embed(Turn<'a, T, Ingestion<V>>, EmbedRequest),
    /// Write the batch of the prompt's chunks.
    Upsert(Turn<'a, T, Upserting>, UpsertRequest<V>),
    /// The ingestion failed: the turn ends with this reply, and nothing goes
    /// to the log.
    Reply(String),
}

/// What a turn does next.
pub enum TurnStep<'a, T, S, R> {
    /// Perform the request and hand the outcome to the state.
    Ask(Turn<'a, T, S>, R),
    /// The reply is made: hand the exchange to the log, and reply with its
    /// response.
    Store(Chat),
    /// The ingestion failed: the turn ends with this reply, and nothing goes
    /// to the log.
    Reply(String),
}

impl<'a, T, S> Turn<'a, T, S> {
    /// Whether `next` is a state of the same turn.
    pub open spec fn carries<U>(self, next: Turn<'a, T, U>) -> bool {
        &&& next.prompt@ == self.prompt@
        &&& next.model@ == self.model@
        &&& next.usecases == self.usecases
    }
}

impl<'a, T, V> Turn<'a, T, Ingestion<V>> {
    /// Whether `step` is what follows on `outcome`, where a new point gets the
    /// identifier `id` and the clock reads `now`: the ingestion goes on as
    /// [`Ingestion::recorded`] says, and its failure ends the turn with a
    /// reply that reports it.
    pub open spec fn recorded(
        self,
        outcome: Result<V, String>,
        id: Seq<char>,
        now: int,
        step: TurnIngest<'a, T, V>,
    ) -> bool {
        match step {
            TurnIngest::Embed(turn, request) => self.carries(turn) && self.state.recorded(
                outcome,
                id,
                now,
                IngestStep::Embed(turn.state, request),
            ),
            TurnIngest::Upsert(turn, request) => self.carries(turn) && self.state.recorded(
                outcome,
                id,
                now,
                IngestStep::Upsert(turn.state, request),
            ),
            TurnIngest::Reply(reply) => outcome matches Err(cause) && reply@ == failure_reply(
                "Error adding the document"@,
                embedding_failure(cause@),
            ),
        }
    }

    /// Takes the outcome of the embedding that was asked for, with the
    /// identifier and the clock reading to give to the new point.
    pub fn record(self, outcome: Result<V, String>, id: String, now: i64) -> (step: TurnIngest<
        'a,
        T,
        V,
    >)
        ensures
            self.recorded(outcome, id@, now as int, step),
    {
        let Turn { prompt, model, usecases, state } = self;
        match state.record(outcome, id, now) {
            IngestStep::Embed(next, request) => TurnIngest::Embed(
                Turn { prompt, model, usecases, state: next },
                request,
            ),
            IngestStep::Upsert(next, request) => TurnIngest::Upsert(
                Turn { prompt, model, usecases, state: next },
                request,
            ),
            IngestStep::Failed(e) => TurnIngest::Reply(
                describe("Error adding the document", e.message.as_str()),
            ),
        }
    }

    /// Takes the outcome of the embedding that was asked for. The new point
    /// gets a fresh random identifier and the time of the clock: the step is
    /// the one that [`Turn::record`] gives for some identifier with the shape
    /// of a UUID and some reading of the clock.
    pub fn embedded(self, outcome: Result<V, String>) -> (step: TurnIngest<'a, T, V>)
        ensures
            exists|id: Seq<char>, now: int|
                is_uuid_text(id) && #[trigger] self.recorded(outcome, id, now, step),
    {
        let id = fresh_id();
        let now = unix_seconds();
        let ghost id_text = id@;
        let step = self.record(outcome, id, now);
        assert(is_uuid_text(id_text) && self.recorded(outcome, id_text, now as int, step));
        step
    }
}

impl<'a, T: Usecases> Turn<'a, T, Upserting> {
    /// Takes the outcome of the write. Where the batch was written, the
    /// answer starts: the prompt is to be embedded, and the summary of the
    /// ingestion stands as the previous conversation. Where it failed, the
    /// turn ends with a reply that reports it.
    pub fn upserted(self, outcome: Result<(), String>) -> (step: TurnStep<
        'a,
        T,
        Chatting,
        EmbedRequest,
    >)
        ensures
            match outcome {
                Ok(_) => {
                    &&& step matches TurnStep::Ask(turn, request)
                    &&& self.carries(turn)
                    &&& turn.state.prompt@ == self.prompt@
                    &&& turn.state.context@ == summary(self.state.total as nat)
                    &&& turn.state.model@ == self.model@
                    &&& turn.state.retrieval.collection@
                        == self.usecases.configuration().collection@
                    &&& turn.state.retrieval.limit == self.usecases.configuration().search_limit
                    &&& turn.state.retrieval.threshold
                        == self.usecases.configuration().relevance_threshold
                    &&& request.model@ == self.usecases.configuration().embedding_model@
                    &&& request.text@ == self.prompt@
                },
                Err(cause) => step matches TurnStep::Reply(reply) && reply@ == failure_reply(
                    "Error adding the document"@,
                    upsert_failure(cause@),
                ),
            },
    {
        let Turn { prompt, model, usecases, state } = self;
        match state.upserted(outcome) {
            Ok(history) => {
                let (chatting, request) = usecases.chatting(prompt.clone(), history, model.clone());
                TurnStep::Ask(Turn { prompt, model, usecases, state: chatting }, request)
            },
            Err(e) => TurnStep::Reply(describe("Error adding the document", e.message.as_str())),
        }
    }
}

impl<'a, T> Turn<'a, T, Chatting> {
    /// Takes the outcome of the embedding of the prompt: the search to
    /// perform, or the exchange whose response reports the failure.
    pub fn embedded<V>(self, outcome: Result<V, String>) -> (step: TurnStep<
        'a,
        T,
        ChatSearching,
        SearchRequest<V>,
    >)
        ensures
            match outcome {
                Ok(vector) => {
                    &&& step matches TurnStep::Ask(turn, request)
                    &&& self.carries(turn)
                    &&& turn.state.prompt@ == self.state.prompt@
                    &&& turn.state.context@ == self.state.context@
                    &&& turn.state.model@ == self.state.model@
                    &&& turn.state.searching.threshold == self.state.retrieval.threshold
                    &&& request.collection@ == self.state.retrieval.collection@
                    &&& request.vector == vector
                    &&& request.limit == self.state.retrieval.limit
                    &&& request.with_payload
                    &&& request.with_vectors
                },
                Err(cause) => {
                    &&& step matches TurnStep::Store(chat)
                    &&& chat.prompt@ == self.prompt@
                    &&& chat.response@ == failure_reply(
                        "Error generating embeddings"@,
                        embedding_failure(cause@),
                    )
                },
            },
    {
        let Turn { prompt, model, usecases, state } = self;
        match state.embedded(outcome) {
            ChatStep::Ask(next, request) => TurnStep::Ask(
                Turn { prompt, model, usecases, state: next },
                request,
            ),
            ChatStep::Reply(reply) => TurnStep::Store(Chat::now(prompt, reply)),
        }
    }
}

impl<'a, T> Turn<'a, T, ChatSearching> {
    /// Takes the outcome of the search: the request to the generator, or the
    /// exchange whose response reports the failure.
    pub fn found(self, outcome: Result<Vec<SearchHit>, String>) -> (step: TurnStep<
        'a,
        T,
        Generating,
        GenerateRequest,
    >)
        ensures
            match outcome {
                Ok(hits) => {
                    &&& step matches TurnStep::Ask(turn, request)
                    &&& self.carries(turn)
                    &&& turn.state.prompt@ == self.state.prompt@
                    &&& request.model@ == self.state.model@
                    &&& request.prompt@ == metaprompt(
                        self.state.prompt@,
                        self.state.context@,
                        retrieval_context(hits_view(hits@), self.state.searching.threshold),
                    )
                },
                Err(cause) => {
                    &&& step matches TurnStep::Store(chat)
                    &&& chat.prompt@ == self.prompt@
                    &&& chat.response@ == failure_reply(
                        "Error searching documents"@,
                        search_failure(cause@),
                    )
                },
            },
    {
        let Turn { prompt, model, usecases, state } = self;
        match state.found(outcome) {
            ChatStep::Ask(next, request) => TurnStep::Ask(
                Turn { prompt, model, usecases, state: next },
                request,
            ),
            ChatStep::Reply(reply) => TurnStep::Store(Chat::now(prompt, reply)),
        }
    }
}

impl<'a, T> Turn<'a, T, Generating> {
    /// Takes the outcome of the generation: the exchange of the prompt and
    /// the reply, which is the generated text as it is, or the report of the
    /// failure.
    pub fn generated(self, outcome: Result<String, String>) -> (chat: Chat)
        ensures
            chat.prompt@ == self.prompt@,
            chat.response@ == reply_of(outcome),
    {
        let Turn { prompt, state, .. } = self;
        let reply = state.generated(outcome);
        Chat::now(prompt, reply)
    }
}

impl<T: Usecases> Handlers<T> {
    /// The handlers over `usecases`.
    pub fn new(usecases: T) -> (handlers: Handlers<T>)
        ensures
            handlers.usecases == usecases,
    {
        Handlers { usecases }
    }

    /// Starts a turn: the prompt is ingested under the source `chat_history`,
    /// so its first chunk is to be embedded.
    pub fn chatting<'a, V>(&'a self, prompt: String, model: String) -> (start: (
        Turn<'a, T, Ingestion<V>>,
        EmbedRequest,
    ))
        ensures
            start.0.prompt@ == prompt@,
            start.0.model@ == model@,
            start.0.usecases == &self.usecases,
            start.0.state.document() == prompt@,
            start.0.state.source() == chat_history(),
            start.0.state.model() == self.usecases.configuration().embedding_model@,
            start.0.state.collection() == self.usecases.configuration().collection@,
            start.0.state.chunks() == chunked(
                prompt@,
                self.usecases.configuration().chunk_size as nat,
                self.usecases.configuration().chunk_overlap as nat,
            ),
            start.0.state.points().len() == 0,
            start.0.state.stamps().len() == 0,
            start.0.state.latest() == i64::MIN,
            start.0.state.in_progress(),
            start.1.model@ == self.usecases.configuration().embedding_model@,
            start.1.text@ == start.0.state.awaited(),
    {
        let (state, request) = self.usecases.doc_adding(
            prompt.clone(),
            String::from_str("chat_history"),
        );
        (Turn { prompt, model, usecases: &self.usecases, state }, request)
    }
}

} // verus!
