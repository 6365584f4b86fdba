//! The flush engine end to end: size- and time-driven flushes, offset
//! release on acknowledgment, order across retries, and the webhook
//! intake's refusals.

use danube_connect::buffer::{FlushBuffer, WriteOutcome};
use danube_connect::bus::{ConnectorConfig, ErrorKind, SinkRecord, SubscriptionType};
use danube_connect::deltalake::config::{
    DeltaLakeConfig, DeltaLakeSinkConfig, SchemaField, StorageBackend, TopicMapping, WriteMode,
};
use danube_connect::deltalake::connector::DeltaLakeSinkConnector;
use danube_connect::deltalake::connector::{table_open_plan, TableAction, TableOpenOutcome};
use danube_connect::deltalake::record::{
    build_array_for_field, extract_timestamp_field, to_record_batch, ArrowType, CellValue,
};
use danube_connect::text::u64_to_dec;
use danube_connect::envelope::{decode_envelope, encode_envelope, payload_from_bytes};
use danube_connect::qdrant::config::Distance;
use danube_connect::qdrant::connector::{ensure_collection_plan, QdrantSinkConnector};
use danube_connect::surrealdb::config::StorageMode;
use danube_connect::surrealdb::connector::SurrealDBSinkConnector;
use danube_connect::value::{Number, Value};
use danube_connect::webhook::config::{
    AuthConfig, AuthType, CoreConfig, EndpointConfig, ServerConfig, WebhookSourceConfig,
};
use danube_connect::webhook::connector::WebhookConnector;
use danube_connect::webhook::server::{webhook_request_outcome, AppError};

fn obj(entries: Vec<(&str, Value)>) -> Value {
    Value::Obj(entries.into_iter().map(|(k, v)| (k.to_string(), v)).collect())
}

fn vstr(x: &str) -> Value {
    Value::Str(x.to_string())
}

fn vint(n: i64) -> Value {
    Value::Num(Number::Int(n))
}

fn vf(x: f64) -> Value {
    Value::Num(Number::Float(x.to_bits()))
}

fn record(topic: &str, offset: u64, payload: Value) -> SinkRecord {
    SinkRecord {
        topic: topic.to_string(),
        offset,
        publish_time: 1_700_000_000_000_000,
        producer_name: "producer".to_string(),
        attributes: Vec::new(),
        payload,
        partition: None,
    }
}

fn table_config(batch: usize) -> DeltaLakeSinkConfig {
    DeltaLakeSinkConfig {
        core: ConnectorConfig {
            danube_service_url: "http://localhost:6650".to_string(),
            connector_name: "lake".to_string(),
        },
        deltalake: DeltaLakeConfig {
            storage_backend: StorageBackend::S3,
            s3_region: Some("us-east-1".to_string()),
            s3_endpoint: None,
            s3_allow_http: false,
            azure_storage_account: None,
            azure_container: None,
            gcp_project_id: None,
            topic_mappings: vec![TopicMapping {
                topic: "/events".to_string(),
                subscription: "lake-sub".to_string(),
                delta_table_path: "s3://bucket/table".to_string(),
                schema: vec![
                    SchemaField {
                        name: "id".to_string(),
                        data_type: "Int64".to_string(),
                        nullable: false,
                    },
                    SchemaField {
                        name: "name".to_string(),
                        data_type: "Utf8".to_string(),
                        nullable: true,
                    },
                ],
                write_mode: WriteMode::Append,
                include_danube_metadata: false,
                batch_size: Some(batch),
                flush_interval_ms: None,
            }],
            batch_size: 1000,
            flush_interval_ms: 5000,
        },
    }
}

#[test]
fn test_size_triggered_table_flush() {
    let mut connector = DeltaLakeSinkConnector::with_config(table_config(3));

    let r1 = record("/events", 1, obj(vec![("id", vint(1)), ("name", vstr("a"))]));
    let r2 = record("/events", 2, obj(vec![("id", vint(2)), ("name", Value::Null)]));
    let r3 = record("/events", 3, obj(vec![("id", vint(3))]));

    assert!(connector.process(r1, 0).unwrap().is_none());
    assert!(connector.process(r2, 0).unwrap().is_none());
    let job = connector.process(r3, 0).unwrap().expect("third record crosses the threshold");
    assert_eq!(job.mapping_index, 0);
    assert_eq!(job.batch.len(), 3);

    let batch = to_record_batch(&job.batch, &connector.config.deltalake.topic_mappings[0]).unwrap();
    assert_eq!(batch.schema.len(), 2);
    assert!(matches!(batch.schema[0].data_type, ArrowType::Int64));
    assert_eq!(
        batch.columns[0],
        vec![CellValue::Int(1), CellValue::Int(2), CellValue::Int(3)]
    );
    assert_eq!(
        batch.columns[1],
        vec![
            CellValue::Utf8("a".to_string()),
            CellValue::Missing,
            CellValue::Missing,
        ]
    );

    let offsets = connector.complete_flush(0, job.batch, WriteOutcome::Ack, 10).unwrap();
    let nums: Vec<u64> = offsets.iter().map(|o| o.offset).collect();
    assert_eq!(nums, vec![1, 2, 3]);
    assert_eq!(connector.buffers[0].records_written(), 3);
    assert_eq!(connector.buffers[0].batches_flushed(), 1);
}

#[test]
fn test_non_nullable_missing_field_rejected() {
    let connector = DeltaLakeSinkConnector::with_config(table_config(3));
    let rows = vec![record("/events", 1, obj(vec![("name", vstr("a"))]))];

    let err = to_record_batch(&rows, &connector.config.deltalake.topic_mappings[0]).unwrap_err();
    assert_eq!(err.kind, ErrorKind::InvalidData);
}

#[test]
fn test_empty_batch_never_reaches_writer() {
    let mut connector = DeltaLakeSinkConnector::with_config(table_config(3));

    // No records buffered: neither the ticker nor the final drain hands
    // anything to the writer.
    assert!(connector.check_and_flush_intervals(10_000).is_empty());
    assert!(connector.flush_all(10_000).is_empty());

    // And an empty batch is refused before any writer would see it.
    let rows: Vec<SinkRecord> = Vec::new();
    let err = to_record_batch(&rows, &connector.config.deltalake.topic_mappings[0]).unwrap_err();
    assert_eq!(err.kind, ErrorKind::Fatal);
}

#[test]
fn test_batch_size_one_flushes_each_record() {
    let mut connector = DeltaLakeSinkConnector::with_config(table_config(1));

    for k in 0..3u64 {
        let job = connector
            .process(record("/events", k, obj(vec![("id", vint(k as i64))])), 0)
            .unwrap()
            .expect("every record triggers its own flush");
        assert_eq!(job.batch.len(), 1);
    }
}

#[test]
fn test_retry_preserves_order() {
    let mut connector = DeltaLakeSinkConnector::with_config(table_config(2));

    let r1 = record("/events", 1, obj(vec![("id", vint(1))]));
    let r2 = record("/events", 2, obj(vec![("id", vint(2))]));
    assert!(connector.process(r1, 0).unwrap().is_none());
    let job = connector.process(r2, 0).unwrap().expect("size threshold");

    let err = connector
        .complete_flush(0, job.batch, WriteOutcome::Retry("write failed".to_string()), 0)
        .unwrap_err();
    assert_eq!(err.kind, ErrorKind::Retryable);
    assert_eq!(connector.buffers[0].len(), 2);

    let r3 = record("/events", 3, obj(vec![("id", vint(3))]));
    let job = connector.process(r3, 0).unwrap().expect("buffer is over the threshold again");
    let offsets: Vec<u64> = job.batch.iter().map(|r| r.offset).collect();
    assert_eq!(offsets, vec![1, 2, 3]);
}

#[test]
fn test_fatal_flush_requeues_too() {
    let mut connector = DeltaLakeSinkConnector::with_config(table_config(1));
    let job = connector
        .process(record("/events", 7, obj(vec![("id", vint(7))])), 0)
        .unwrap()
        .unwrap();

    let err = connector
        .complete_flush(0, job.batch, WriteOutcome::Fatal("schema mismatch".to_string()), 0)
        .unwrap_err();
    assert_eq!(err.kind, ErrorKind::Fatal);
    assert_eq!(connector.buffers[0].len(), 1);
    assert!(connector.buffers[0].last_error().is_some());
}

#[test]
fn test_unmapped_topic_is_fatal() {
    let mut connector = DeltaLakeSinkConnector::with_config(table_config(3));
    let err = connector.process(record("/other", 1, Value::Null), 0).unwrap_err();
    assert_eq!(err.kind, ErrorKind::Fatal);
    assert_eq!(connector.buffers[0].len(), 0);
}

fn vector_connector(batch: usize, timeout_ms: u64, now: u64) -> QdrantSinkConnector {
    let config = danube_connect::qdrant::config::QdrantConfig {
        url: "http://localhost:6334".to_string(),
        api_key: None,
        topic_mappings: vec![danube_connect::qdrant::config::TopicMapping {
            topic: "/vectors".to_string(),
            subscription: "vec-sub".to_string(),
            subscription_type: SubscriptionType::Exclusive,
            collection_name: "points".to_string(),
            vector_dimension: 3,
            distance: Distance::Cosine,
            auto_create_collection: true,
            include_danube_metadata: false,
            expected_schema_subject: None,
            batch_size: Some(batch),
            batch_timeout_ms: Some(timeout_ms),
        }],
        batch_size: 100,
        batch_timeout_ms: 1000,
        timeout_secs: 30,
    };
    QdrantSinkConnector::with_config(config, now)
}

#[test]
fn test_time_triggered_vector_flush() {
    let mut connector = vector_connector(100, 500, 0);

    let payload = obj(vec![
        ("vector", Value::Arr(vec![vf(0.1), vf(0.2), vf(0.3)])),
        ("id", vstr("42")),
    ]);
    assert!(connector.process(&record("/vectors", 1, payload), 0).unwrap().is_none());

    assert!(connector.tick(400).is_empty());

    let jobs = connector.tick(500);
    assert_eq!(jobs.len(), 1);
    assert_eq!(jobs[0].batch.len(), 1);
    assert_eq!(jobs[0].batch[0].id, 42);
}

#[test]
fn test_interval_zero_flushes_every_tick() {
    let mut connector = vector_connector(100, 0, 0);

    let payload = obj(vec![("vector", Value::Arr(vec![vf(0.1), vf(0.2), vf(0.3)]))]);
    // With a zero interval the push itself already crosses the time
    // threshold and drains the buffer.
    assert!(connector.process(&record("/vectors", 1, payload), 0).unwrap().is_some());

    // A refilled buffer is due on the very next tick.
    let payload = obj(vec![("vector", Value::Arr(vec![vf(0.4), vf(0.5), vf(0.6)]))]);
    let mut buffer: FlushBuffer<u8> = FlushBuffer::new_started(100, 0, 0);
    buffer.push(1);
    assert!(buffer.time_due(0));
    drop(payload);
}

#[test]
fn test_dimension_rejection_keeps_buffer_empty() {
    let mut connector = vector_connector(100, 500, 0);

    let payload = obj(vec![("vector", Value::Arr(vec![vf(0.1), vf(0.2)]))]);
    let err = connector.process(&record("/vectors", 1, payload), 0).unwrap_err();
    assert_eq!(err.kind, ErrorKind::InvalidData);
    assert_eq!(connector.collections[0].len(), 0);
}

#[test]
fn test_collection_plan() {
    let connector = vector_connector(100, 500, 0);
    let mapping = &connector.config.topic_mappings[0];

    assert!(matches!(
        ensure_collection_plan(mapping, true),
        Ok(danube_connect::qdrant::connector::CollectionAction::UseExisting)
    ));
    match ensure_collection_plan(mapping, false).unwrap() {
        danube_connect::qdrant::connector::CollectionAction::Create {
            collection_name,
            vector_dimension,
            distance,
        } => {
            assert_eq!(collection_name, "points");
            assert_eq!(vector_dimension, 3);
            assert_eq!(distance, Distance::Cosine);
        },
        other => panic!("expected a creation plan, got {:?}", other),
    }

    let strict = danube_connect::qdrant::config::TopicMapping {
        topic: "/vectors".to_string(),
        subscription: "vec-sub".to_string(),
        subscription_type: SubscriptionType::Exclusive,
        collection_name: "points".to_string(),
        vector_dimension: 3,
        distance: Distance::Cosine,
        auto_create_collection: false,
        include_danube_metadata: false,
        expected_schema_subject: None,
        batch_size: None,
        batch_timeout_ms: None,
    };
    let err = ensure_collection_plan(&strict, false).unwrap_err();
    assert_eq!(err.kind, ErrorKind::Fatal);
}

#[test]
fn test_surreal_batch_flow() {
    let config = danube_connect::surrealdb::config::SurrealDBSinkConfig {
        core: ConnectorConfig {
            connector_name: "doc".to_string(),
            danube_service_url: "http://localhost:6650".to_string(),
        },
        surrealdb: danube_connect::surrealdb::config::SurrealDBConfig {
            url: "ws://localhost:8000".to_string(),
            namespace: "ns".to_string(),
            database: "db".to_string(),
            username: None,
            password: None,
            connection_timeout_secs: 30,
            request_timeout_secs: 30,
            topic_mappings: vec![danube_connect::surrealdb::config::TopicMapping {
                topic: "/docs".to_string(),
                subscription: "doc-sub".to_string(),
                subscription_type: SubscriptionType::Shared,
                table_name: "events".to_string(),
                include_danube_metadata: false,
                expected_schema_subject: None,
                batch_size: Some(2),
                flush_interval_ms: Some(1000),
                storage_mode: StorageMode::Document,
            }],
            batch_size: 100,
            flush_interval_ms: 1000,
        },
    };
    let mut connector = SurrealDBSinkConnector::with_config(config);

    let records = vec![
        record("/docs", 1, obj(vec![("k", vint(1))])),
        record("/docs", 2, obj(vec![("k", vint(2))])),
        record("/docs", 3, obj(vec![("k", vint(3))])),
    ];
    let jobs = connector.process_batch(records, 0).unwrap();
    assert_eq!(jobs.len(), 1);
    assert_eq!(jobs[0].batch.len(), 2);
    assert_eq!(connector.tables[0].len(), 1);

    let consumer = connector.consumer_configs();
    assert_eq!(consumer.len(), 1);
    assert_eq!(consumer[0].consumer_name, "doc-events");
}

#[test]
fn test_envelope_round_trip() {
    for bytes in [Vec::new(), vec![0u8], vec![0u8, 159, 255, 7, 42]] {
        let env = encode_envelope(bytes.clone());
        assert_eq!(decode_envelope(&env), Some(bytes));
    }
}

#[test]
fn test_payload_classification() {
    match payload_from_bytes(b"{\"a\":1}".to_vec()) {
        danube_connect::bus::SourcePayload::Json(b) => assert_eq!(b, b"{\"a\":1}".to_vec()),
        other => panic!("valid JSON travels as itself, got {:?}", other),
    }
    match payload_from_bytes(vec![0xff, 0xfe]) {
        danube_connect::bus::SourcePayload::Envelope(env) => assert_eq!(env.size, 2),
        other => panic!("non-JSON bytes travel enveloped, got {:?}", other),
    }
}

fn webhook_config(auth: AuthConfig, max_body: usize) -> WebhookSourceConfig {
    WebhookSourceConfig {
        core: CoreConfig {
            danube_service_url: "http://localhost:6650".to_string(),
            connector_name: "hooks".to_string(),
            metrics_port: 9090,
        },
        server: ServerConfig {
            host: "0.0.0.0".to_string(),
            port: 8080,
            tls_cert_path: None,
            tls_key_path: None,
            timeout_seconds: 30,
            max_body_size: max_body,
        },
        auth,
        rate_limit: None,
        endpoints: vec![EndpointConfig {
            path: "/webhook".to_string(),
            danube_topic: "/hooks/in".to_string(),
            partitions: 0,
            reliable_dispatch: false,
            rate_limit: None,
        }],
    }
}

fn key_auth() -> AuthConfig {
    AuthConfig {
        auth_type: AuthType::ApiKey,
        secret_env: Some("WEBHOOK_KEY".to_string()),
        header: Some("X-API-Key".to_string()),
        algorithm: None,
        public_key_path: None,
    }
}

fn headers(pairs: &[(&str, &str)]) -> Vec<(String, String)> {
    pairs.iter().map(|(k, v)| (k.to_string(), v.to_string())).collect()
}

#[test]
fn test_webhook_auth_and_oversize() {
    let config = webhook_config(key_auth(), 1024);
    let secret = "SECRET-REDACTED".to_string();

    // Correct key, oversize body: refused with the payload status, never
    // truncated.
    let hs = headers(&[("x-api-key", "SECRET-REDACTED")]);
    let err = webhook_request_outcome(&config, "/webhook", &hs, Some(&secret), true, 2048)
        .unwrap_err();
    assert!(matches!(err, AppError::PayloadTooLarge(_)));
    assert_eq!(err.status_code(), 413);

    // Wrong key, small body: unauthorized.
    let hs = headers(&[("x-api-key", "wrong")]);
    let err =
        webhook_request_outcome(&config, "/webhook", &hs, Some(&secret), true, 100).unwrap_err();
    assert!(matches!(err, AppError::Unauthorized(_)));
    assert_eq!(err.status_code(), 401);

    // Correct key, small body: accepted, and the record carries the
    // intake's attributes.
    let hs = headers(&[("x-api-key", "SECRET-REDACTED"), ("content-type", "application/json")]);
    let index =
        webhook_request_outcome(&config, "/webhook", &hs, Some(&secret), true, 100).unwrap();
    assert_eq!(index, 0);

    let record = WebhookConnector::create_source_record(
        &config.endpoints[index],
        "hooks",
        "/webhook",
        b"{\"ok\":true}".to_vec(),
        &hs,
        None,
        "2024-01-01T00:00:00+00:00",
    );
    assert_eq!(record.topic, "/hooks/in");
    let keys: Vec<&str> = record.attributes.iter().map(|(k, _)| k.as_str()).collect();
    assert!(keys.contains(&"webhook.source"));
    assert!(keys.contains(&"webhook.endpoint"));
    assert!(keys.contains(&"webhook.timestamp"));
}

#[test]
fn test_webhook_not_found_and_rate_limit() {
    let config = webhook_config(
        AuthConfig {
            auth_type: AuthType::NoAuth,
            secret_env: None,
            header: None,
            algorithm: None,
            public_key_path: None,
        },
        1024,
    );

    let err = webhook_request_outcome(&config, "/missing", &Vec::new(), None, true, 10)
        .unwrap_err();
    assert!(matches!(err, AppError::NotFound(_)));
    assert_eq!(err.status_code(), 404);

    let err =
        webhook_request_outcome(&config, "/webhook", &Vec::new(), None, false, 10).unwrap_err();
    assert!(matches!(err, AppError::TooManyRequests(_)));
    assert_eq!(err.status_code(), 429);
}

#[test]
fn test_bind_address() {
    let config = webhook_config(key_auth(), 1024);
    assert_eq!(config.bind_address(), "0.0.0.0:8080");
}

#[test]
fn test_timestamp_extraction_matches_calendar() {
    let v = obj(vec![("ts", vint(1))]);
    assert_eq!(extract_timestamp_field(&v, "ts"), Some(1_000_000));

    let text = "2022-09-11T18:34:48+00:00";
    let v = obj(vec![("ts", vstr(text))]);
    let expected = chrono::DateTime::parse_from_rfc3339(text).unwrap().timestamp_micros();
    assert_eq!(extract_timestamp_field(&v, "ts"), Some(expected));

    let v = obj(vec![("ts", vstr("not a timestamp"))]);
    assert_eq!(extract_timestamp_field(&v, "ts"), None);
}

#[test]
fn test_decimal_rendering() {
    assert_eq!(u64_to_dec(0), "0");
    assert_eq!(u64_to_dec(10), "10");
    assert_eq!(u64_to_dec(1234567890), "1234567890");
    assert_eq!(u64_to_dec(u64::MAX), u64::MAX.to_string());
}

#[test]
fn test_batch_with_unmapped_topic_fails() {
    let mut connector = DeltaLakeSinkConnector::with_config(table_config(10));
    let records = vec![
        record("/events", 1, obj(vec![("id", vint(1))])),
        record("/elsewhere", 2, obj(vec![("id", vint(2))])),
    ];
    let err = connector.process_batch(records, 0).unwrap_err();
    assert_eq!(err.kind, ErrorKind::Fatal);
}

#[test]
fn test_webhook_producer_configs_dedup() {
    let mut config = webhook_config(key_auth(), 1024);
    config.endpoints.push(EndpointConfig {
        path: "/webhook2".to_string(),
        danube_topic: "/hooks/in".to_string(),
        partitions: 4,
        reliable_dispatch: true,
        rate_limit: None,
    });
    config.endpoints.push(EndpointConfig {
        path: "/other".to_string(),
        danube_topic: "/hooks/other".to_string(),
        partitions: 0,
        reliable_dispatch: false,
        rate_limit: None,
    });

    let connector = WebhookConnector::with_config(config);
    let producers = connector.producer_configs().unwrap();
    let topics: Vec<&str> = producers.iter().map(|p| p.topic.as_str()).collect();
    assert_eq!(topics, vec!["/hooks/in", "/hooks/other"]);
    // The first declaring endpoint's settings win.
    assert_eq!(producers[0].partitions, 0);
}

#[test]
fn test_commit_counts_offsets() {
    let mut connector = danube_connect::mqtt::connector::MqttSourceConnector::new();
    let offsets = vec![
        danube_connect::bus::Offset { topic: "/mqtt/sensors".to_string(), offset: 1 },
        danube_connect::bus::Offset { topic: "/mqtt/sensors".to_string(), offset: 2 },
    ];
    connector.commit(offsets);
    assert_eq!(connector.offset_counter, 2);
    connector.commit(Vec::new());
    assert_eq!(connector.offset_counter, 2);
}

#[test]
fn test_date_and_binary_columns() {
    let rows = vec![
        obj(vec![("d", vint(19000)), ("b", vstr("AQID"))]),
        obj(vec![("d", Value::Null), ("b", Value::Null)]),
    ];

    let dates = build_array_for_field("d", ArrowType::Date32, true, &rows).unwrap();
    assert_eq!(dates, vec![CellValue::Date(19000), CellValue::Missing]);

    let bytes = build_array_for_field("b", ArrowType::Binary, true, &rows).unwrap();
    assert_eq!(
        bytes,
        vec![CellValue::Binary("AQID".to_string()), CellValue::Missing]
    );

    // A day count beyond the narrow date width is rejected, not wrapped.
    let wide = vec![obj(vec![("d", vint(1 << 40))])];
    let err = build_array_for_field("d", ArrowType::Date32, true, &wide).unwrap_err();
    assert_eq!(err.kind, ErrorKind::InvalidData);
    assert!(build_array_for_field("d", ArrowType::Date64, true, &wide).is_ok());
}

#[test]
fn test_table_open_plan() {
    let connector = DeltaLakeSinkConnector::with_config(table_config(3));
    let mapping = &connector.config.deltalake.topic_mappings[0];

    assert!(matches!(
        table_open_plan(mapping, TableOpenOutcome::Opened),
        Ok(TableAction::UseOpened)
    ));
    match table_open_plan(mapping, TableOpenOutcome::NotFound).unwrap() {
        TableAction::Create { fields } => {
            assert_eq!(fields.len(), 2);
            assert_eq!(fields[0].name, "id");
        },
        other => panic!("expected a creation plan, got {:?}", other),
    }
    let err = table_open_plan(mapping, TableOpenOutcome::Failed).unwrap_err();
    assert_eq!(err.kind, ErrorKind::Fatal);
}

#[test]
fn test_table_metadata_carries_producer_and_attributes() {
    let mut config = table_config(3);
    config.deltalake.topic_mappings[0].include_danube_metadata = true;
    let connector = DeltaLakeSinkConnector::with_config(config);

    let mut r1 = record("/events", 1, obj(vec![("id", vint(1))]));
    r1.attributes.push(("trace".to_string(), "abc".to_string()));
    let rows = vec![r1];

    let batch = to_record_batch(&rows, &connector.config.deltalake.topic_mappings[0]).unwrap();
    let md = batch.metadata.expect("metadata column present");
    assert_eq!(md.len(), 1);
    assert_eq!(md[0].get_field("producer"), Some(&vstr("producer")));
    let attrs = md[0].get_field("attributes").expect("attributes object");
    assert_eq!(attrs.get_field("trace"), Some(&vstr("abc")));
}
