use rust_llm_rag::config::{
    PipelineConfig, CHUNK_OVERLAP, CHUNK_SIZE, RELEVANCE_THRESHOLD, SEARCH_LIMIT,
};
use rust_llm_rag::errors::{describe, Error, ErrorKind};
use rust_llm_rag::models::Chat;
use rust_llm_rag::setting::{Setting, SettingValues};

fn values() -> SettingValues {
    SettingValues {
        server_port: 8080,
        server_timeout: 30,
        server_max_payload: 1_000_000,
        server_max_buffer_size: 4096,
        vector_db_host: "localhost".to_string(),
        vector_db_port: 6334,
        llm_model: "llama3".to_string(),
        mongodb_uri: "mongodb://localhost:27017".to_string(),
    }
}

#[test]
fn settings_take_the_values_of_the_file() {
    let setting = Setting::new(values());
    assert_eq!(setting.server.port, 8080);
    assert_eq!(setting.server.timeout, 30);
    assert_eq!(setting.server.max_payload, 1_000_000);
    assert_eq!(setting.server.max_buffer_size, 4096);
    assert_eq!(setting.vector_db.host, "localhost");
    assert_eq!(setting.vector_db.port, 6334);
    assert_eq!(setting.llm.model, "llama3");
    assert_eq!(setting.mongodb.uri, "mongodb://localhost:27017");
}

#[test]
fn numbers_too_wide_for_their_field_keep_their_low_bits() {
    let mut v = values();
    v.server_port = 65_536 + 80;
    v.vector_db_port = -1;
    v.server_timeout = (1i64 << 32) + 7;
    v.server_max_payload = -2;
    v.server_max_buffer_size = -1;
    let setting = Setting::new(v);
    assert_eq!(setting.server.port, 80);
    assert_eq!(setting.vector_db.port, 65_535);
    assert_eq!(setting.server.timeout, 7);
    assert_eq!(setting.server.max_payload, u64::MAX - 1);
    assert_eq!(setting.server.max_buffer_size, usize::MAX);
}

#[test]
fn the_extremes_are_reduced_like_a_cast() {
    for raw in [i64::MIN, i64::MIN + 1, -65_537, -65_536, -1, 0, 65_535, 65_536, i64::MAX] {
        let mut v = values();
        v.server_port = raw;
        v.server_timeout = raw;
        v.server_max_payload = raw;
        v.server_max_buffer_size = raw;
        v.vector_db_port = raw;
        let setting = Setting::new(v);
        assert_eq!(setting.server.port, raw as u16);
        assert_eq!(setting.server.timeout, raw as u32);
        assert_eq!(setting.server.max_payload, raw as u64);
        assert_eq!(setting.server.max_buffer_size, raw as usize);
        assert_eq!(setting.vector_db.port, raw as u16);
    }
}

#[test]
fn the_default_configuration() {
    let config = PipelineConfig::default();
    assert_eq!(config.embedding_model, "nomic-embed-text:latest");
    assert_eq!(config.collection, "docs");
    assert_eq!(config.chunk_size, 512);
    assert_eq!(config.chunk_overlap, 50);
    assert_eq!(config.relevance_threshold.millionths, 700_000);
    assert_eq!(config.search_limit, 5);
    assert_eq!(
        (CHUNK_SIZE, CHUNK_OVERLAP, RELEVANCE_THRESHOLD, SEARCH_LIMIT),
        (512, 50, 700_000, 5)
    );
}

#[test]
fn a_configuration_is_copied_field_by_field() {
    let mut config = PipelineConfig::default();
    config.collection = "other".to_string();
    config.chunk_size = 7;
    let copy = config.copy();
    assert_eq!(copy.embedding_model, "nomic-embed-text:latest");
    assert_eq!(copy.collection, "other");
    assert_eq!(copy.chunk_size, 7);
    assert_eq!(copy.chunk_overlap, 50);
    assert_eq!(copy.relevance_threshold, config.relevance_threshold);
    assert_eq!(copy.search_limit, 5);
}

#[test]
fn errors_carry_their_kind_and_description() {
    let e = Error::new(ErrorKind::Generation, "no answer");
    assert_eq!(e.kind, ErrorKind::Generation);
    assert_eq!(e.message, "no answer");
    assert_eq!(e.to_string(), "no answer");
    let e = Error::because(ErrorKind::VectorStore, "Error searching points", "timeout");
    assert_eq!(e.kind, ErrorKind::VectorStore);
    assert_eq!(e.to_string(), "Error searching points: timeout");
    assert_eq!(describe("what", ""), "what: ");
}

#[test]
fn an_exchange_keeps_what_it_is_given() {
    let chat = Chat::new("hi".to_string(), "hello".to_string(), 17);
    assert_eq!(chat.prompt, "hi");
    assert_eq!(chat.response, "hello");
    assert_eq!(chat.created_at, 17);
    let delivered = chat.stored(Ok(()));
    assert_eq!(delivered.reply, "hello");
    assert!(delivered.warning.is_none());
}

#[test]
fn an_exchange_made_now_has_the_time_of_the_clock() {
    let before = std::time::SystemTime::now()
        .duration_since(std::time::UNIX_EPOCH)
        .unwrap()
        .as_millis() as i64;
    let chat = Chat::now("hi".to_string(), "hello".to_string());
    let after = std::time::SystemTime::now()
        .duration_since(std::time::UNIX_EPOCH)
        .unwrap()
        .as_millis() as i64;
    assert_eq!(chat.prompt, "hi");
    assert_eq!(chat.response, "hello");
    assert!(before <= chat.created_at && chat.created_at <= after);
}
