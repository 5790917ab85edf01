use rust_llm_rag::config::PipelineConfig;
use rust_llm_rag::errors::{Error, ErrorKind};
use rust_llm_rag::payload::{DocumentMetadata, Value};
use rust_llm_rag::usecases::{
    EmbedRequest, IngestStep, Ingestion, UpsertRequest, Upserting, Usecases, UsecasesImpl,
};

type Vector = Vec<f32>;

struct Run {
    embedded: Vec<EmbedRequest>,
    upserts: Vec<UpsertRequest<Vector>>,
    result: Result<String, Error>,
}

fn usecases(size: usize, overlap: usize) -> UsecasesImpl {
    let mut config = PipelineConfig::default();
    config.chunk_size = size;
    config.chunk_overlap = overlap;
    UsecasesImpl::new(config)
}

fn vector_of(text: &str) -> Vector {
    vec![text.len() as f32, 0.5]
}

fn ingest(
    usecases: &UsecasesImpl,
    document: &str,
    source: &str,
    fail_embedding_at: Option<usize>,
    upsert: Result<(), String>,
) -> Run {
    let mut embedded = Vec::new();
    let mut upserts = Vec::new();
    let (mut state, mut request): (Ingestion<Vector>, EmbedRequest) =
        usecases.doc_adding(document.to_string(), source.to_string());
    loop {
        let outcome = if fail_embedding_at == Some(embedded.len()) {
            Err("model is down".to_string())
        } else {
            Ok(vector_of(&request.text))
        };
        embedded.push(request);
        match state.embedded(outcome) {
            IngestStep::Embed(next, r) => {
                state = next;
                request = r;
            }
            IngestStep::Upsert(upserting, r) => {
                upserts.push(r);
                return Run { embedded, upserts, result: upserting.upserted(upsert) };
            }
            IngestStep::Failed(e) => return Run { embedded, upserts, result: Err(e) },
        }
    }
}

fn metadata_of(payload: &rust_llm_rag::payload::Payload) -> DocumentMetadata {
    DocumentMetadata::decode(payload.get("metadata").unwrap()).unwrap()
}

fn is_uuid(id: &str) -> bool {
    id.len() == 36
        && id.chars().enumerate().all(|(i, c)| match i {
            8 | 13 | 18 | 23 => c == '-',
            14 => c == '4',
            _ => c.is_ascii_digit() || ('a'..='f').contains(&c),
        })
}

#[test]
fn ingesting_a_short_document_adds_one_chunk() {
    let run = ingest(
        &UsecasesImpl::new(PipelineConfig::default()),
        "The quick brown fox jumps over the lazy dog",
        "notes",
        None,
        Ok(()),
    );
    assert_eq!(run.result.unwrap(), "Successfully added 1 chunks");
    assert_eq!(run.embedded.len(), 1);
    assert_eq!(run.embedded[0].model, "nomic-embed-text:latest");
    assert_eq!(run.embedded[0].text, "The quick brown fox jumps over the lazy dog");
    assert_eq!(run.upserts.len(), 1);
    assert_eq!(run.upserts[0].collection, "docs");
    assert_eq!(run.upserts[0].points.len(), 1);
}

#[test]
fn ingesting_the_empty_document_processes_one_empty_chunk() {
    let run = ingest(&UsecasesImpl::new(PipelineConfig::default()), "", "test", None, Ok(()));
    assert_eq!(run.result.unwrap(), "Successfully added 1 chunks");
    assert_eq!(run.embedded.len(), 1);
    assert_eq!(run.embedded[0].text, "");
    let points = &run.upserts[0].points;
    assert_eq!(points.len(), 1);
    assert!(matches!(points[0].payload.get("doc"), Some(Value::Text(s)) if s.is_empty()));
    let metadata = metadata_of(&points[0].payload);
    assert_eq!(metadata.chunk_index, 0);
    assert_eq!(metadata.total_chunks, 1);
    assert_eq!(metadata.original_text, "");
    assert_eq!(metadata.source, "test");
}

#[test]
fn every_chunk_is_embedded_in_order_and_written_in_one_batch() {
    let run = ingest(&usecases(4, 1), "a b c d e f g h i j", "manual", None, Ok(()));
    assert_eq!(run.result.unwrap(), "Successfully added 4 chunks");
    let asked: Vec<&str> = run.embedded.iter().map(|r| r.text.as_str()).collect();
    assert_eq!(asked, vec!["a b c d", "d e f g", "g h i j", "j"]);
    assert_eq!(run.upserts.len(), 1);
    let points = &run.upserts[0].points;
    assert_eq!(points.len(), 4);
    for (k, point) in points.iter().enumerate() {
        assert!(matches!(point.payload.get("doc"), Some(Value::Text(s)) if *s == asked[k]));
        assert_eq!(point.vector, vector_of(asked[k]));
        let metadata = metadata_of(&point.payload);
        assert_eq!(metadata.chunk_index, k);
        assert_eq!(metadata.total_chunks, 4);
        assert_eq!(metadata.original_text, "a b c d e f g h i j");
        assert_eq!(metadata.source, "manual");
    }
}

#[test]
fn points_get_distinct_identifiers_of_uuid_shape() {
    let run = ingest(&usecases(2, 0), "a b c d e f", "notes", None, Ok(()));
    let points = &run.upserts[0].points;
    assert_eq!(points.len(), 3);
    for point in points {
        assert!(is_uuid(&point.id), "{}", point.id);
    }
    assert_ne!(points[0].id, points[1].id);
    assert_ne!(points[1].id, points[2].id);
    assert_ne!(points[0].id, points[2].id);
}

#[test]
fn timestamps_are_of_now_and_never_go_back() {
    let before = std::time::SystemTime::now()
        .duration_since(std::time::UNIX_EPOCH)
        .unwrap()
        .as_secs() as i64;
    let run = ingest(&usecases(1, 0), "a b c d e", "notes", None, Ok(()));
    let after = std::time::SystemTime::now()
        .duration_since(std::time::UNIX_EPOCH)
        .unwrap()
        .as_secs() as i64;
    let stamps: Vec<i64> =
        run.upserts[0].points.iter().map(|p| metadata_of(&p.payload).timestamp).collect();
    assert_eq!(stamps.len(), 5);
    assert!(stamps.windows(2).all(|w| w[0] <= w[1]));
    assert!(before <= stamps[0] && stamps[4] <= after);
}

#[test]
fn a_failed_embedding_ends_the_ingestion_at_once() {
    let run = ingest(&usecases(2, 0), "a b c d e f", "notes", Some(1), Ok(()));
    let e = run.result.unwrap_err();
    assert_eq!(e.kind, ErrorKind::Embedding);
    assert_eq!(e.message, "Error generating embeddings: model is down");
    assert_eq!(e.to_string(), "Error generating embeddings: model is down");
    assert_eq!(run.embedded.len(), 2);
    assert!(run.upserts.is_empty());
}

#[test]
fn a_failed_write_fails_the_ingestion() {
    let run = ingest(&usecases(2, 0), "a b c", "notes", None, Err("store is full".to_string()));
    let e = run.result.unwrap_err();
    assert_eq!(e.kind, ErrorKind::VectorStore);
    assert_eq!(e.message, "Error upserting points: store is full");
    assert_eq!(run.upserts.len(), 1);
}

#[test]
fn record_uses_the_identifier_and_the_time_it_is_given() {
    let (state, _request): (Ingestion<Vector>, EmbedRequest) =
        usecases(2, 0).doc_adding("a b c".to_string(), "notes".to_string());
    let state = match state.record(Ok(vec![1.0]), "first".to_string(), 100) {
        IngestStep::Embed(next, request) => {
            assert_eq!(request.text, "c");
            assert_eq!(request.model, "nomic-embed-text:latest");
            next
        }
        _ => panic!("one chunk is left"),
    };
    match state.record(Ok(vec![2.0]), "second".to_string(), 90) {
        IngestStep::Upsert(upserting, request) => {
            assert_eq!(upserting.total, 2);
            assert_eq!(request.points[0].id, "first");
            assert_eq!(request.points[0].vector, vec![1.0]);
            assert_eq!(metadata_of(&request.points[0].payload).timestamp, 100);
            assert_eq!(request.points[1].id, "second");
            assert_eq!(request.points[1].vector, vec![2.0]);
            assert_eq!(metadata_of(&request.points[1].payload).timestamp, 100);
        }
        _ => panic!("all chunks are embedded"),
    }
}

#[test]
fn record_takes_a_later_time_as_it_is() {
    let (state, _request): (Ingestion<Vector>, EmbedRequest) =
        usecases(1, 0).doc_adding("a b".to_string(), "notes".to_string());
    let state = match state.record(Ok(vec![]), "x".to_string(), -7) {
        IngestStep::Embed(next, _) => next,
        _ => panic!("one chunk is left"),
    };
    match state.record(Ok(vec![]), "y".to_string(), 12) {
        IngestStep::Upsert(_, request) => {
            assert_eq!(metadata_of(&request.points[0].payload).timestamp, -7);
            assert_eq!(metadata_of(&request.points[1].payload).timestamp, 12);
        }
        _ => panic!("all chunks are embedded"),
    }
}

#[test]
fn the_summary_counts_the_chunks() {
    assert_eq!(Upserting { total: 0 }.upserted(Ok(())).unwrap(), "Successfully added 0 chunks");
    assert_eq!(Upserting { total: 12 }.upserted(Ok(())).unwrap(), "Successfully added 12 chunks");
}

#[test]
fn long_documents_are_cut_by_the_default_policy() {
    let words: Vec<String> = (0..1000).map(|i| format!("w{}", i)).collect();
    let run = ingest(
        &UsecasesImpl::new(PipelineConfig::default()),
        &words.join(" "),
        "notes",
        None,
        Ok(()),
    );
    assert_eq!(run.result.unwrap(), "Successfully added 3 chunks");
    assert_eq!(run.embedded[1].text, words[462..974].join(" "));
    let indices: Vec<usize> =
        run.upserts[0].points.iter().map(|p| metadata_of(&p.payload).chunk_index).collect();
    assert_eq!(indices, vec![0, 1, 2]);
}

#[test]
fn the_use_cases_chunk_by_their_configuration() {
    assert_eq!(usecases(2, 1).chunk_text("a b c"), vec!["a b", "b c", "c"]);
    assert_eq!(UsecasesImpl::new(PipelineConfig::default()).chunk_text(" a  b "), vec!["a b"]);
}
