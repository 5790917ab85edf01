use rust_llm_rag::config::PipelineConfig;
use rust_llm_rag::errors::ErrorKind;
use rust_llm_rag::handlers::{Handlers, Turn, TurnIngest, TurnStep};
use rust_llm_rag::models::Chat;
use rust_llm_rag::payload::{DocumentMetadata, Payload, Value};
use rust_llm_rag::retrieval::SearchHit;
use rust_llm_rag::score::Score;
use rust_llm_rag::usecases::{
    assemble_prompt, ChatStep, EmbedRequest, GenerateRequest, Ingestion, SearchRequest,
    UpsertRequest, Usecases, UsecasesImpl,
};

type Vector = Vec<f32>;

struct Stubs {
    embedding: Result<Vector, String>,
    query_embedding: Result<Vector, String>,
    upsert: Result<(), String>,
    search: Result<Vec<SearchHit>, String>,
    generation: Result<String, String>,
    log: Result<(), String>,
}

#[derive(Default)]
struct Seen {
    embedded: Vec<EmbedRequest>,
    upserts: Vec<UpsertRequest<Vector>>,
    searches: Vec<SearchRequest<Vector>>,
    generations: Vec<GenerateRequest>,
    logged: Vec<Chat>,
    warning: Option<String>,
}

fn stored(text: &str, source: &str) -> Payload {
    let metadata = DocumentMetadata {
        original_text: text.to_string(),
        chunk_index: 0,
        total_chunks: 1,
        timestamp: 1_700_000_000,
        source: source.to_string(),
    };
    Payload::for_chunk(text, &metadata)
}

fn hit(millionths: i64, text: &str, source: &str) -> SearchHit {
    SearchHit { score: Score::from_millionths(millionths), payload: stored(text, source) }
}

fn working(hits: Vec<SearchHit>, reply: &str) -> Stubs {
    Stubs {
        embedding: Ok(vec![0.1, 0.2]),
        query_embedding: Ok(vec![0.3, 0.4]),
        upsert: Ok(()),
        search: Ok(hits),
        generation: Ok(reply.to_string()),
        log: Ok(()),
    }
}

fn handlers() -> Handlers<UsecasesImpl> {
    Handlers::new(UsecasesImpl::new(PipelineConfig::default()))
}

fn finish(chat: Chat, log: Result<(), String>, seen: &mut Seen) -> String {
    seen.logged.push(Chat::new(chat.prompt.clone(), chat.response.clone(), chat.created_at));
    let delivered = chat.stored(log);
    seen.warning = delivered.warning;
    delivered.reply
}

fn chat(prompt: &str, model: &str, stubs: Stubs) -> (String, Seen) {
    let mut seen = Seen::default();
    let handlers = handlers();
    let (mut turn, mut request): (Turn<UsecasesImpl, Ingestion<Vector>>, EmbedRequest) =
        handlers.chatting(prompt.to_string(), model.to_string());
    let (turn, request) = loop {
        seen.embedded.push(request);
        match turn.embedded(stubs.embedding.clone()) {
            TurnIngest::Embed(next, r) => {
                turn = next;
                request = r;
            }
            TurnIngest::Upsert(next, r) => break (next, r),
            TurnIngest::Reply(reply) => return (reply, seen),
        }
    };
    seen.upserts.push(request);
    let (turn, request) = match turn.upserted(stubs.upsert) {
        TurnStep::Ask(next, r) => (next, r),
        TurnStep::Store(chat) => return (finish(chat, stubs.log, &mut seen), seen),
        TurnStep::Reply(reply) => return (reply, seen),
    };
    seen.embedded.push(request);
    let (turn, request) = match turn.embedded(stubs.query_embedding) {
        TurnStep::Ask(next, r) => (next, r),
        TurnStep::Store(chat) => return (finish(chat, stubs.log, &mut seen), seen),
        TurnStep::Reply(reply) => return (reply, seen),
    };
    seen.searches.push(request);
    let (turn, request) = match turn.found(stubs.search) {
        TurnStep::Ask(next, r) => (next, r),
        TurnStep::Store(chat) => return (finish(chat, stubs.log, &mut seen), seen),
        TurnStep::Reply(reply) => return (reply, seen),
    };
    seen.generations.push(request);
    let exchange = turn.generated(stubs.generation);
    (finish(exchange, stubs.log, &mut seen), seen)
}

const INSTRUCTIONS: &str = "\n\n            Please provide a natural, conversational response to the user's question, \n            incorporating relevant information from the provided context and documents.\n            Focus on the most relevant information and maintain a coherent narrative.\n            Do not mention that the answer comes from stored history, and stay in character.\n            Answer:";

#[test]
fn a_turn_replies_with_the_generated_text_as_it_is() {
    let stubs = working(vec![hit(900_000, "previous note", "chat_history")], "  You said hi.\n");
    let (reply, seen) = chat("What did I just say?", "model-x", stubs);
    assert_eq!(reply, "  You said hi.\n");
    assert_eq!(seen.generations.len(), 1);
    assert_eq!(seen.generations[0].model, "model-x");
    let prompt = &seen.generations[0].prompt;
    assert!(prompt.contains("previous note"));
    assert!(prompt.contains("chat_history"));
    assert!(prompt.contains("What did I just say?"));
}

#[test]
fn a_turn_builds_the_prompt_of_four_sections() {
    let stubs = working(vec![hit(900_000, "previous note", "chat_history")], "fine");
    let (_, seen) = chat("What did I just say?", "model-x", stubs);
    assert_eq!(
        seen.generations[0].prompt,
        format!(
            "User's question:\nWhat did I just say?\n\n            \
             Previous conversation:\nSuccessfully added 1 chunks\n\n            \
             Relevant documents:\nContent (relevance score: 0.90): previous note\n\
             Source: chat_history{}",
            INSTRUCTIONS
        )
    );
}

#[test]
fn a_turn_ingests_the_prompt_as_chat_history_before_it_answers() {
    let (_, seen) = chat("remember the milk", "model-x", working(vec![], "ok"));
    assert_eq!(seen.embedded.len(), 2);
    assert_eq!(seen.embedded[0].text, "remember the milk");
    assert_eq!(seen.embedded[0].model, "nomic-embed-text:latest");
    assert_eq!(seen.embedded[1].text, "remember the milk");
    assert_eq!(seen.upserts.len(), 1);
    assert_eq!(seen.upserts[0].collection, "docs");
    let points = &seen.upserts[0].points;
    assert_eq!(points.len(), 1);
    assert_eq!(points[0].vector, vec![0.1, 0.2]);
    assert!(matches!(points[0].payload.get("doc"), Some(Value::Text(s)) if s == "remember the milk"));
    let metadata = DocumentMetadata::decode(points[0].payload.get("metadata").unwrap()).unwrap();
    assert_eq!(metadata.source, "chat_history");
    assert_eq!(metadata.original_text, "remember the milk");
}

#[test]
fn a_turn_searches_with_the_embedding_of_the_prompt() {
    let (_, seen) = chat("hello", "model-x", working(vec![], "ok"));
    assert_eq!(seen.searches.len(), 1);
    let search = &seen.searches[0];
    assert_eq!(search.collection, "docs");
    assert_eq!(search.vector, vec![0.3, 0.4]);
    assert_eq!(search.limit, 5);
    assert!(search.with_payload);
    assert!(search.with_vectors);
}

#[test]
fn a_turn_hands_the_exchange_to_the_log() {
    let (reply, seen) = chat("hello", "model-x", working(vec![], "hi there"));
    assert_eq!(reply, "hi there");
    assert_eq!(seen.logged.len(), 1);
    assert_eq!(seen.logged[0].prompt, "hello");
    assert_eq!(seen.logged[0].response, "hi there");
    assert!(seen.logged[0].created_at > 1_600_000_000_000);
    assert!(seen.warning.is_none());
}

#[test]
fn a_failing_log_does_not_change_the_reply() {
    let mut stubs = working(vec![], "hi there");
    stubs.log = Err("connection refused".to_string());
    let (reply, seen) = chat("hello", "model-x", stubs);
    assert_eq!(reply, "hi there");
    assert_eq!(
        seen.warning.unwrap(),
        "Failed to store chat in MongoDB: connection refused"
    );
}

#[test]
fn a_failing_generator_gives_a_reply_that_says_so() {
    let mut stubs = working(vec![hit(900_000, "previous note", "chat_history")], "");
    stubs.generation = Err("model not found".to_string());
    let (reply, seen) = chat("What did I just say?", "model-x", stubs);
    assert!(reply.contains("Error generating response"));
    assert_eq!(reply, "Error generating response: model not found");
    assert_eq!(seen.logged[0].response, "Error generating response: model not found");
}

#[test]
fn no_hits_give_an_empty_documents_section() {
    let (reply, seen) = chat("anything new?", "model-x", working(vec![], "nothing"));
    assert_eq!(reply, "nothing");
    assert_eq!(
        seen.generations[0].prompt,
        format!(
            "User's question:\nanything new?\n\n            \
             Previous conversation:\nSuccessfully added 1 chunks\n\n            \
             Relevant documents:\n{}",
            INSTRUCTIONS
        )
    );
}

#[test]
fn hits_below_the_threshold_do_not_reach_the_prompt() {
    let hits = vec![
        hit(650_000, "faint memory", "notes"),
        hit(910_000, "clear memory", "notes"),
    ];
    let (_, seen) = chat("what do you recall?", "model-x", working(hits, "ok"));
    let prompt = &seen.generations[0].prompt;
    assert!(prompt.contains("clear memory"));
    assert!(!prompt.contains("faint memory"));
}

#[test]
fn a_failed_ingestion_ends_the_turn_before_any_search_or_generation() {
    let mut stubs = working(vec![], "unused");
    stubs.embedding = Err("model is down".to_string());
    let (reply, seen) = chat("hello", "model-x", stubs);
    assert_eq!(
        reply,
        "Error adding the document: Error generating embeddings: model is down"
    );
    assert!(seen.upserts.is_empty());
    assert!(seen.searches.is_empty());
    assert!(seen.generations.is_empty());
    assert!(seen.logged.is_empty());
}

#[test]
fn a_failed_write_ends_the_turn_before_any_search_or_generation() {
    let mut stubs = working(vec![], "unused");
    stubs.upsert = Err("store is full".to_string());
    let (reply, seen) = chat("hello", "model-x", stubs);
    assert_eq!(reply, "Error adding the document: Error upserting points: store is full");
    assert!(seen.searches.is_empty());
    assert!(seen.generations.is_empty());
    assert!(seen.logged.is_empty());
}

#[test]
fn a_failed_embedding_of_the_query_is_the_reply() {
    let mut stubs = working(vec![], "unused");
    stubs.query_embedding = Err("timeout".to_string());
    let (reply, seen) = chat("hello", "model-x", stubs);
    assert_eq!(
        reply,
        "Error generating embeddings: Error generating embeddings: timeout"
    );
    assert!(seen.searches.is_empty());
    assert!(seen.generations.is_empty());
    assert_eq!(seen.logged.len(), 1);
    assert_eq!(seen.logged[0].response, reply);
}

#[test]
fn a_failed_search_is_the_reply() {
    let mut stubs = working(vec![], "unused");
    stubs.search = Err("no such collection".to_string());
    let (reply, seen) = chat("hello", "model-x", stubs);
    assert_eq!(
        reply,
        "Error searching documents: Error searching points: no such collection"
    );
    assert!(seen.generations.is_empty());
    assert_eq!(seen.logged.len(), 1);
}

#[test]
fn the_use_case_answers_with_the_context_it_is_given() {
    let usecases = UsecasesImpl::new(PipelineConfig::default());
    let (state, request) =
        usecases.chatting("why?".to_string(), "earlier talk".to_string(), "model-y".to_string());
    assert_eq!(request.text, "why?");
    let (state, search) = match state.embedded(Ok(vec![1.0f32])) {
        ChatStep::Ask(next, r) => (next, r),
        ChatStep::Reply(r) => panic!("{}", r),
    };
    assert_eq!(search.vector, vec![1.0f32]);
    let (state, generate) = match state.found(Ok(vec![hit(720_000, "because", "notes")])) {
        ChatStep::Ask(next, r) => (next, r),
        ChatStep::Reply(r) => panic!("{}", r),
    };
    assert_eq!(generate.model, "model-y");
    assert_eq!(
        generate.prompt,
        assemble_prompt(
            "why?",
            "earlier talk",
            "Content (relevance score: 0.72): because\nSource: notes"
        )
    );
    assert_eq!(state.generated(Ok("so it is".to_string())), "so it is");
}

#[test]
fn the_use_case_reports_failures_as_replies() {
    let usecases = UsecasesImpl::new(PipelineConfig::default());
    let (state, _) = usecases.chatting("q".to_string(), "c".to_string(), "m".to_string());
    match state.embedded::<Vector>(Err("down".to_string())) {
        ChatStep::Reply(r) => {
            assert_eq!(r, "Error generating embeddings: Error generating embeddings: down")
        }
        ChatStep::Ask(..) => panic!("the embedding failed"),
    }
    let (state, _) = usecases.chatting("q".to_string(), "c".to_string(), "m".to_string());
    let state = match state.embedded(Ok(vec![1.0f32])) {
        ChatStep::Ask(next, _) => next,
        ChatStep::Reply(r) => panic!("{}", r),
    };
    match state.found(Err("down".to_string())) {
        ChatStep::Reply(r) => {
            assert_eq!(r, "Error searching documents: Error searching points: down")
        }
        ChatStep::Ask(..) => panic!("the search failed"),
    }
}

#[test]
fn retrieval_gives_the_context_of_the_hits_that_survive() {
    let usecases = UsecasesImpl::new(PipelineConfig::default());
    let (retrieval, request) = usecases.retrieve("what is new");
    assert_eq!(request.model, "nomic-embed-text:latest");
    assert_eq!(request.text, "what is new");
    let (searching, search) = retrieval.embedded(Ok(vec![0.5f32])).unwrap();
    assert_eq!(search.limit, 5);
    let hits = vec![hit(800_000, "news", "feed"), hit(100_000, "noise", "feed")];
    assert_eq!(
        searching.found(Ok(hits)).unwrap(),
        "Content (relevance score: 0.80): news\nSource: feed"
    );
}

#[test]
fn retrieval_of_no_hits_is_the_empty_context() {
    let usecases = UsecasesImpl::new(PipelineConfig::default());
    let (retrieval, _) = usecases.retrieve("what is new");
    let (searching, _) = retrieval.embedded(Ok(vec![0.5f32])).unwrap();
    assert_eq!(searching.found(Ok(vec![])).unwrap(), "");
}

#[test]
fn retrieval_fails_with_the_failure_of_its_services() {
    let usecases = UsecasesImpl::new(PipelineConfig::default());
    let (retrieval, _) = usecases.retrieve("q");
    let e = retrieval.embedded::<Vector>(Err("down".to_string())).unwrap_err();
    assert_eq!(e.kind, ErrorKind::Embedding);
    assert_eq!(e.message, "Error generating embeddings: down");
    let (retrieval, _) = usecases.retrieve("q");
    let (searching, _) = retrieval.embedded(Ok(vec![0.5f32])).unwrap();
    let e = searching.found(Err("gone".to_string())).unwrap_err();
    assert_eq!(e.kind, ErrorKind::VectorStore);
    assert_eq!(e.message, "Error searching points: gone");
}

#[test]
fn an_embedding_outcome_is_passed_on_or_described() {
    assert_eq!(UsecasesImpl::embedding(Ok(vec![1.5f32])).unwrap(), vec![1.5f32]);
    let e = UsecasesImpl::embedding::<Vector>(Err("bad gateway".to_string())).unwrap_err();
    assert_eq!(e.kind, ErrorKind::Embedding);
    assert_eq!(e.message, "Error generating embeddings: bad gateway");
}
