//! Configuration validation and defaults across the connectors.

use danube_connect::bus::{ConnectorConfig, ErrorKind, SubscriptionType};
use danube_connect::deltalake::config::validate_arrow_type;
use danube_connect::mqtt::config::{MqttConfig, QoS};
use danube_connect::qdrant::config::{Distance, QdrantConfig};
use danube_connect::surrealdb::config::{StorageMode, SurrealDBConfig, SurrealDBSinkConfig};
use danube_connect::webhook::config as webhook_config;

#[test]
fn test_validate_arrow_type() {
    assert!(validate_arrow_type("Utf8").is_ok());
    assert!(validate_arrow_type("Int64").is_ok());
    assert!(validate_arrow_type("Float64").is_ok());
    assert!(validate_arrow_type("Boolean").is_ok());
    assert!(validate_arrow_type("Timestamp").is_ok());
    assert!(validate_arrow_type("InvalidType").is_err());
}

fn qdrant_mapping() -> danube_connect::qdrant::config::TopicMapping {
    danube_connect::qdrant::config::TopicMapping {
        topic: "/default/vectors".to_string(),
        subscription: "qdrant-sink-sub".to_string(),
        subscription_type: SubscriptionType::Exclusive,
        collection_name: "test_collection".to_string(),
        vector_dimension: 1536,
        distance: Distance::Cosine,
        auto_create_collection: true,
        include_danube_metadata: true,
        expected_schema_subject: None,
        batch_size: None,
        batch_timeout_ms: None,
    }
}

#[test]
fn test_config_validation() {
    let mut config = QdrantConfig {
        url: "http://localhost:6334".to_string(),
        api_key: None,
        topic_mappings: vec![qdrant_mapping()],
        batch_size: 100,
        batch_timeout_ms: 1000,
        timeout_secs: 30,
    };

    assert!(config.validate().is_ok());

    config.url = "".to_string();
    assert!(config.validate().is_err());

    config.url = "http://localhost:6334".to_string();
    config.topic_mappings = vec![];
    assert!(config.validate().is_err());
}

#[test]
fn test_zero_dimension_rejected() {
    let mut mapping = qdrant_mapping();
    mapping.vector_dimension = 0;
    let config = QdrantConfig {
        url: "http://localhost:6334".to_string(),
        api_key: None,
        topic_mappings: vec![mapping],
        batch_size: 100,
        batch_timeout_ms: 1000,
        timeout_secs: 30,
    };
    let err = config.validate().unwrap_err();
    assert_eq!(err.kind, ErrorKind::Config);
}

fn surreal_mapping(table: &str, mode: StorageMode) -> danube_connect::surrealdb::config::TopicMapping {
    danube_connect::surrealdb::config::TopicMapping {
        topic: format!("/test/{}", table),
        subscription: format!("test-{}", table),
        subscription_type: SubscriptionType::Shared,
        table_name: table.to_string(),
        include_danube_metadata: true,
        expected_schema_subject: None,
        batch_size: None,
        flush_interval_ms: None,
        storage_mode: mode,
    }
}

fn surreal_config() -> SurrealDBSinkConfig {
    SurrealDBSinkConfig {
        core: ConnectorConfig {
            connector_name: "test".to_string(),
            danube_service_url: "http://localhost:6650".to_string(),
        },
        surrealdb: SurrealDBConfig {
            url: "ws://localhost:8000".to_string(),
            namespace: "test".to_string(),
            database: "test".to_string(),
            username: None,
            password: None,
            connection_timeout_secs: 30,
            request_timeout_secs: 30,
            topic_mappings: vec![surreal_mapping("events", StorageMode::Document)],
            batch_size: 100,
            flush_interval_ms: 1000,
        },
    }
}

#[test]
fn config_test_config_validation() {
    let mut config = surreal_config();

    assert!(config.validate().is_ok());

    config.surrealdb.url = "".to_string();
    assert!(config.validate().is_err());
    config.surrealdb.url = "ws://localhost:8000".to_string();

    config.surrealdb.topic_mappings.clear();
    assert!(config.validate().is_err());
}

#[test]
fn test_storage_mode_validation() {
    let mut config = surreal_config();
    config.surrealdb.topic_mappings = vec![
        surreal_mapping("documents", StorageMode::Document),
        surreal_mapping("timeseries", StorageMode::TimeSeries),
    ];

    assert!(config.validate().is_ok());
}

#[test]
fn test_default_values() {
    assert_eq!(danube_connect::surrealdb::config::default_batch_size(), 100);
    assert_eq!(danube_connect::surrealdb::config::default_flush_interval_ms(), 1000);
    assert_eq!(danube_connect::surrealdb::config::default_connection_timeout(), 30);
    assert_eq!(danube_connect::surrealdb::config::default_request_timeout(), 30);
    assert!(danube_connect::surrealdb::config::default_include_metadata());
    assert_eq!(StorageMode::default(), StorageMode::Document);
}

fn mqtt_config() -> MqttConfig {
    MqttConfig {
        broker_host: "localhost".to_string(),
        broker_port: 1883,
        client_id: "test-client".to_string(),
        username: None,
        password: None,
        use_tls: false,
        keep_alive_secs: 60,
        connection_timeout_secs: 30,
        max_packet_size: 1024 * 1024,
        topic_mappings: vec![danube_connect::mqtt::config::TopicMapping {
            mqtt_topic: "sensors/#".to_string(),
            danube_topic: "/mqtt/sensors".to_string(),
            qos: QoS::AtLeastOnce,
            partitions: 0,
            reliable_dispatch: None,
        }],
        clean_session: true,
        include_metadata: true,
        tcp_nodelay: true,
    }
}

#[test]
fn mqtt_config_test_config_validation() {
    let mut config = mqtt_config();

    assert!(config.validate().is_ok());

    config.broker_host = "".to_string();
    assert!(config.validate().is_err());

    config.broker_host = "localhost".to_string();
    config.topic_mappings = vec![];
    assert!(config.validate().is_err());
}

#[test]
fn test_effective_reliable_dispatch() {
    let mut mapping = danube_connect::mqtt::config::TopicMapping {
        mqtt_topic: "sensors/#".to_string(),
        danube_topic: "/mqtt/sensors".to_string(),
        qos: QoS::AtMostOnce,
        partitions: 0,
        reliable_dispatch: None,
    };
    assert!(!mapping.effective_reliable_dispatch());
    mapping.qos = QoS::AtLeastOnce;
    assert!(mapping.effective_reliable_dispatch());
    mapping.reliable_dispatch = Some(false);
    assert!(!mapping.effective_reliable_dispatch());
}

#[test]
fn config_test_default_values() {
    let config = webhook_config::CoreConfig {
        danube_service_url: "http://localhost:6650".to_string(),
        connector_name: "test".to_string(),
        metrics_port: webhook_config::default_metrics_port(),
    };
    assert_eq!(config.metrics_port, 9090);

    let server = webhook_config::ServerConfig {
        host: webhook_config::default_host(),
        port: webhook_config::default_port(),
        tls_cert_path: None,
        tls_key_path: None,
        timeout_seconds: webhook_config::default_timeout(),
        max_body_size: webhook_config::default_max_body_size(),
    };
    assert_eq!(server.host, "0.0.0.0");
    assert_eq!(server.port, 8080);
    assert_eq!(server.timeout_seconds, 30);
    assert_eq!(server.max_body_size, 1024 * 1024);
}
