//! Field extraction, column typing, and document shaping for the two
//! record-oriented sinks.

use danube_connect::bus::{ConnectorConfig, SinkRecord, SubscriptionType};
use danube_connect::deltalake::record::{
    extract_int_field, extract_string_field, parse_arrow_type, ArrowType,
};
use danube_connect::surrealdb::config::{
    StorageMode, SurrealDBConfig, SurrealDBSinkConfig, TopicMapping,
};
use danube_connect::surrealdb::connector::{SurrealDBSinkConnector, TableContext};
use danube_connect::surrealdb::record::{to_surrealdb_record, SurrealDBRecord};
use danube_connect::value::{Number, Value};
use base64::Engine;

fn obj(entries: Vec<(&str, Value)>) -> Value {
    Value::Obj(entries.into_iter().map(|(k, v)| (k.to_string(), v)).collect())
}

fn vstr(x: &str) -> Value {
    Value::Str(x.to_string())
}

fn vint(n: i64) -> Value {
    Value::Num(Number::Int(n))
}

fn test_record(payload: Value) -> SinkRecord {
    SinkRecord {
        topic: "/test/topic".to_string(),
        offset: 42,
        publish_time: 1_700_000_000_000_000,
        producer_name: "test-producer".to_string(),
        attributes: Vec::new(),
        payload,
        partition: None,
    }
}

fn doc_mapping(table: &str, with_metadata: bool, mode: StorageMode) -> TopicMapping {
    TopicMapping {
        topic: "/test/topic".to_string(),
        subscription: "test-sub".to_string(),
        subscription_type: SubscriptionType::Shared,
        table_name: table.to_string(),
        include_danube_metadata: with_metadata,
        expected_schema_subject: None,
        batch_size: None,
        flush_interval_ms: None,
        storage_mode: mode,
    }
}

#[test]
fn test_extract_string_field() {
    let value = obj(vec![("name", vstr("Alice")), ("age", vint(30))]);
    assert_eq!(extract_string_field(&value, "name"), Some("Alice".to_string()));
    assert_eq!(extract_string_field(&value, "missing"), None);
}

#[test]
fn test_extract_int_field() {
    let value = obj(vec![("name", vstr("Alice")), ("age", vint(30))]);
    assert_eq!(extract_int_field(&value, "age"), Some(30));
    assert_eq!(extract_int_field(&value, "missing"), None);
}

#[test]
fn test_parse_arrow_type() {
    assert!(matches!(parse_arrow_type("Utf8"), Ok(ArrowType::Utf8)));
    assert!(matches!(parse_arrow_type("Int64"), Ok(ArrowType::Int64)));
    assert!(matches!(parse_arrow_type("Float64"), Ok(ArrowType::Float64)));
    assert!(matches!(parse_arrow_type("Boolean"), Ok(ArrowType::Boolean)));
    assert!(parse_arrow_type("InvalidType").is_err());
}

#[test]
fn test_json_record() {
    let payload = obj(vec![("id", vstr("user-123")), ("name", vstr("John Doe")), ("age", vint(30))]);
    let record = test_record(payload);
    let mapping = doc_mapping("users", false, StorageMode::Document);

    let result = to_surrealdb_record(record, &mapping).unwrap();
    assert_eq!(result.id, None);
    assert_eq!(result.data.get_field("name"), Some(&vstr("John Doe")));
    assert_eq!(result.data.get_field("age"), Some(&vint(30)));
    assert_eq!(result.data.get_field("id"), Some(&vstr("user-123")));
}

#[test]
fn test_string_record() {
    let record = test_record(vstr("Hello, SurrealDB!"));
    let mapping = doc_mapping("messages", false, StorageMode::Document);

    let result = to_surrealdb_record(record, &mapping).unwrap();
    assert_eq!(result.id, None);
    assert_eq!(result.data, vstr("Hello, SurrealDB!"));
}

#[test]
fn test_int64_record() {
    let record = test_record(vint(42));
    let mapping = doc_mapping("counters", false, StorageMode::Document);

    let result = to_surrealdb_record(record, &mapping).unwrap();
    assert_eq!(result.id, None);
    assert_eq!(result.data, vint(42));
}

#[test]
fn test_bytes_record() {
    let raw_bytes = vec![0x01u8, 0x02, 0x03, 0x04];
    let encoded = base64::engine::general_purpose::STANDARD.encode(&raw_bytes);
    let payload = obj(vec![
        ("data", vstr(&encoded)),
        ("size", vint(raw_bytes.len() as i64)),
        ("encoding", vstr("base64")),
    ]);
    let record = test_record(payload);
    let mapping = doc_mapping("binary_data", false, StorageMode::Document);

    let result = to_surrealdb_record(record, &mapping).unwrap();
    assert_eq!(result.id, None);
    assert_eq!(result.data.get_field("size"), Some(&vint(4)));
    assert_eq!(result.data.get_field("data"), Some(&vstr(&encoded)));
    assert_eq!(result.data.get_field("encoding"), Some(&vstr("base64")));
}

#[test]
fn test_metadata_enrichment() {
    let record = test_record(obj(vec![("event", vstr("test"))]));
    let mapping = doc_mapping("events", true, StorageMode::Document);

    let result = to_surrealdb_record(record, &mapping).unwrap();
    let metadata = result.data.get_field("_danube_metadata").expect("metadata attached");
    assert_eq!(metadata.get_field("danube_topic"), Some(&vstr("/test/topic")));
    assert_eq!(metadata.get_field("danube_offset"), Some(&vint(42)));
}

#[test]
fn test_timeseries_timestamp() {
    let mut record = test_record(obj(vec![("event", vstr("test"))]));
    record.publish_time = 1_000_000;
    let mapping = doc_mapping("timeseries", false, StorageMode::TimeSeries);

    let result = to_surrealdb_record(record, &mapping).unwrap();
    let expected = chrono::DateTime::from_timestamp_micros(1_000_000).unwrap().to_rfc3339();
    assert_eq!(result.data.get_field("_timestamp"), Some(&vstr(&expected)));
}

fn surreal_config() -> SurrealDBSinkConfig {
    SurrealDBSinkConfig {
        core: ConnectorConfig {
            connector_name: "test".to_string(),
            danube_service_url: "http://localhost:6650".to_string(),
        },
        surrealdb: SurrealDBConfig {
            url: "ws://localhost:8000".to_string(),
            namespace: "test".to_string(),
            database: "test".to_string(),
            username: None,
            password: None,
            connection_timeout_secs: 30,
            request_timeout_secs: 30,
            topic_mappings: vec![doc_mapping("events", true, StorageMode::Document)],
            batch_size: 100,
            flush_interval_ms: 1000,
        },
    }
}

#[test]
fn test_table_context_flush_logic() {
    let mut mapping = doc_mapping("events", false, StorageMode::Document);
    mapping.batch_size = Some(10);
    mapping.flush_interval_ms = Some(5000);

    let mut context = TableContext::new(mapping, 100, 1000);

    assert!(!context.should_flush(0));

    for _ in 0..9 {
        context.batch_buffer.push(SurrealDBRecord { id: None, data: Value::Null });
    }
    assert!(!context.should_flush(0));

    context.batch_buffer.push(SurrealDBRecord { id: None, data: Value::Null });
    assert!(context.should_flush(0));
}

#[test]
fn connector_test_connector_creation() {
    let connector = SurrealDBSinkConnector::with_config(surreal_config());
    assert_eq!(connector.tables.len(), 1);
}

#[test]
fn test_document_metadata_carries_producer_and_attributes() {
    let mut record = test_record(obj(vec![("event", vstr("test"))]));
    record.attributes.push(("trace".to_string(), "abc".to_string()));
    let mapping = doc_mapping("events", true, StorageMode::Document);

    let result = to_surrealdb_record(record, &mapping).unwrap();
    let metadata = result.data.get_field("_danube_metadata").expect("metadata attached");
    assert_eq!(metadata.get_field("danube_producer"), Some(&vstr("test-producer")));
    let attrs = metadata.get_field("danube_attributes").expect("attributes object");
    assert_eq!(attrs.get_field("trace"), Some(&vstr("abc")));
}
