//! Point shaping for the vector sink: parsing, ids, flattening, and the
//! per-collection batching context.

use danube_connect::bus::{SinkRecord, SubscriptionType};
use danube_connect::qdrant::config::{Distance, TopicMapping};
use danube_connect::qdrant::connector::{CollectionContext, QdrantSinkConnector};
use danube_connect::qdrant::transform::{
    add_json_to_payload, generate_point_id, hash_string_to_u64, parse_u64, parse_vector_message,
    transform_to_point, PayloadValue, Point,
};
use danube_connect::value::{Number, Value};
use sha2::{Digest, Sha256};

fn obj(entries: Vec<(&str, Value)>) -> Value {
    Value::Obj(entries.into_iter().map(|(k, v)| (k.to_string(), v)).collect())
}

fn vstr(x: &str) -> Value {
    Value::Str(x.to_string())
}

fn vint(n: i64) -> Value {
    Value::Num(Number::Int(n))
}

fn vf(x: f64) -> Value {
    Value::Num(Number::Float(x.to_bits()))
}

fn varr(items: Vec<Value>) -> Value {
    Value::Arr(items)
}

fn vec3() -> Value {
    varr(vec![vf(0.1), vf(0.2), vf(0.3)])
}

fn test_record(payload: Value) -> SinkRecord {
    SinkRecord {
        topic: "/test/vectors".to_string(),
        offset: 42,
        publish_time: 1234567890,
        producer_name: "test-producer".to_string(),
        attributes: Vec::new(),
        payload,
        partition: None,
    }
}

fn vector_mapping(dim: usize, batch: Option<usize>, timeout: Option<u64>) -> TopicMapping {
    TopicMapping {
        topic: "/default/test".to_string(),
        subscription: "test-sub".to_string(),
        subscription_type: SubscriptionType::Exclusive,
        collection_name: "test_collection".to_string(),
        vector_dimension: dim,
        distance: Distance::Cosine,
        auto_create_collection: true,
        include_danube_metadata: true,
        expected_schema_subject: None,
        batch_size: batch,
        batch_timeout_ms: timeout,
    }
}

#[test]
fn record_test_hash_string_to_u64() {
    let id1 = hash_string_to_u64("test-123");
    let id2 = hash_string_to_u64("test-456");

    assert_ne!(id1, id2);
    assert_eq!(hash_string_to_u64("test-123"), id1);
}

#[test]
fn transform_test_hash_string_to_u64() {
    // The id is the digest's first eight bytes read big-endian; recompute
    // it independently.
    let mut hasher = Sha256::new();
    hasher.update("test-123".as_bytes());
    let digest = hasher.finalize();
    let expected = u64::from_be_bytes(digest[0..8].try_into().unwrap());
    assert_eq!(hash_string_to_u64("test-123"), expected);
}

#[test]
fn test_vector_message_parsing() {
    let json = obj(vec![
        ("id", vstr("test-123")),
        ("vector", vec3()),
        ("payload", obj(vec![("text", vstr("Hello world")), ("user_id", vstr("user-456"))])),
    ]);

    let message = parse_vector_message(&json).unwrap();

    assert_eq!(message.id, Some("test-123".to_string()));
    assert_eq!(message.vector.len(), 3);
    assert!(message.payload.is_some());
}

#[test]
fn test_vector_message_minimal() {
    let json = obj(vec![("vector", vec3())]);

    let message = parse_vector_message(&json).unwrap();

    assert!(message.id.is_none());
    assert_eq!(message.vector.len(), 3);
    assert!(message.payload.is_none());
}

#[test]
fn test_add_json_to_payload() {
    let mut payload: Vec<(String, PayloadValue)> = Vec::new();
    let json = obj(vec![("text", vstr("Hello")), ("count", vint(42)), ("enabled", Value::Bool(true))]);

    add_json_to_payload(&mut payload, String::new(), &json);

    assert!(payload.iter().any(|(k, _)| k == "text"));
    assert!(payload.iter().any(|(k, _)| k == "count"));
    assert!(payload.iter().any(|(k, _)| k == "enabled"));
}

#[test]
fn test_nested_payload_flattening() {
    let mut payload: Vec<(String, PayloadValue)> = Vec::new();
    let json = obj(vec![
        ("outer", obj(vec![("inner", vint(1))])),
        ("tags", varr(vec![vstr("a"), Value::Null, vstr("b")])),
        ("gone", Value::Null),
    ]);

    add_json_to_payload(&mut payload, String::new(), &json);

    assert_eq!(
        payload.iter().find(|(k, _)| k == "outer.inner").map(|(_, v)| v),
        Some(&PayloadValue::Num(Number::Int(1)))
    );
    assert_eq!(
        payload.iter().find(|(k, _)| k == "tags").map(|(_, v)| v),
        Some(&PayloadValue::List(vec![
            PayloadValue::Str("a".to_string()),
            PayloadValue::Str("b".to_string()),
        ]))
    );
    assert!(!payload.iter().any(|(k, _)| k == "gone"));
}

#[test]
fn test_transform_valid_message() {
    let json = obj(vec![
        ("id", vstr("test-123")),
        ("vector", vec3()),
        ("payload", obj(vec![("text", vstr("Hello world")), ("user_id", vstr("user-456"))])),
    ]);

    let record = test_record(json);
    let point = transform_to_point(&record, 3, true).unwrap();

    assert_eq!(point.vector.len(), 3);
    assert!(point.payload.len() > 0);
    assert_eq!(point.id, hash_string_to_u64("test-123"));
}

#[test]
fn test_transform_deterministic() {
    let make = || {
        let json = obj(vec![("id", vstr("x")), ("vector", vec3()), ("payload", obj(vec![(
            "k",
            vint(1),
        )]))]);
        transform_to_point(&test_record(json), 3, true).unwrap()
    };
    let a: Point = make();
    let b: Point = make();
    assert_eq!(a, b);
}

#[test]
fn test_transform_dimension_mismatch() {
    let json = obj(vec![("vector", varr(vec![vf(0.1), vf(0.2)]))]);

    let record = test_record(json);
    let result = transform_to_point(&record, 3, false);

    assert!(result.is_err());
}

#[test]
fn test_dimension_off_by_one_rejected() {
    let two = obj(vec![("vector", varr(vec![vf(0.1), vf(0.2)]))]);
    let four = obj(vec![("vector", varr(vec![vf(0.1), vf(0.2), vf(0.3), vf(0.4)]))]);

    assert!(transform_to_point(&test_record(two), 3, false).is_err());
    assert!(transform_to_point(&test_record(four), 3, false).is_err());
    let three = obj(vec![("vector", vec3())]);
    assert!(transform_to_point(&test_record(three), 3, false).is_ok());
}

#[test]
fn test_generate_point_id_from_offset() {
    let message = parse_vector_message(&obj(vec![("vector", vec3())])).unwrap();
    let record = test_record(Value::Null);

    let id = generate_point_id(&message, &record);

    assert_eq!(id, hash_string_to_u64("/test/vectors:42"));
}

#[test]
fn test_parse_u64() {
    assert_eq!(parse_u64("42"), Some(42));
    assert_eq!(parse_u64("+7"), Some(7));
    assert_eq!(parse_u64("0"), Some(0));
    assert_eq!(parse_u64("18446744073709551615"), Some(u64::MAX));
    assert_eq!(parse_u64("18446744073709551616"), None);
    assert_eq!(parse_u64(""), None);
    assert_eq!(parse_u64("+"), None);
    assert_eq!(parse_u64("12a"), None);
    assert_eq!(parse_u64("-1"), None);
}

#[test]
fn test_connector_creation() {
    let connector = QdrantSinkConnector::new();
    assert_eq!(connector.collections.len(), 0);
    assert_eq!(connector.config.topic_mappings.len(), 0);
}

#[test]
fn test_collection_context_flush_logic() {
    let mapping = vector_mapping(384, Some(3), None);
    let mut context = CollectionContext::new(mapping, 100, 1000, 0);

    assert!(!context.should_flush(0));

    let point = |id: u64| Point { id, vector: vec![Number::Float(0.1f64.to_bits())], payload: vec![] };

    context.batch_buffer.push(point(1));
    context.batch_buffer.push(point(2));
    assert!(!context.should_flush(0));

    context.batch_buffer.push(point(3));
    assert!(context.should_flush(0));
}

#[test]
fn test_topic_mapping_effective_values() {
    let mapping = vector_mapping(384, Some(50), Some(500));

    assert_eq!(mapping.effective_batch_size(100), 50);
    assert_eq!(mapping.effective_batch_timeout(1000), 500);

    let mapping_defaults = vector_mapping(768, None, None);

    assert_eq!(mapping_defaults.effective_batch_size(100), 100);
    assert_eq!(mapping_defaults.effective_batch_timeout(1000), 1000);
}
