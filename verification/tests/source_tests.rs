//! Source-side routing: wildcard topic matching, client-address
//! extraction, and the records the sources produce.

use danube_connect::bus::SourcePayload;
use danube_connect::mqtt::config::{MqttConfig, QoS, TopicMapping};
use danube_connect::mqtt::connector::{
    find_mapping_static, publish_to_record_static, MqttSourceConnector,
};
use danube_connect::webhook::auth::{verify_jwt, AuthError};
use danube_connect::webhook::server::extract_client_ip;
use base64::Engine;

#[test]
fn test_topic_matching() {
    assert!(MqttSourceConnector::topic_matches("sensors/temp", "sensors/temp"));
    assert!(!MqttSourceConnector::topic_matches("sensors/temp", "sensors/humidity"));

    assert!(MqttSourceConnector::topic_matches("sensors/+/data", "sensors/temp/data"));
    assert!(MqttSourceConnector::topic_matches("sensors/+/data", "sensors/humidity/data"));
    assert!(!MqttSourceConnector::topic_matches("sensors/+/data", "sensors/temp/config"));

    assert!(MqttSourceConnector::topic_matches("sensors/#", "sensors/temp"));
    assert!(MqttSourceConnector::topic_matches("sensors/#", "sensors/temp/data"));
    assert!(MqttSourceConnector::topic_matches("sensors/#", "sensors/humidity/zone1/data"));
    assert!(!MqttSourceConnector::topic_matches("sensors/#", "devices/temp"));

    assert!(MqttSourceConnector::topic_matches("factory/+/sensors/#", "factory/line1/sensors/temp"));
    assert!(MqttSourceConnector::topic_matches(
        "factory/+/sensors/#",
        "factory/line2/sensors/pressure/zone1"
    ));
}

#[test]
fn mqtt_connector_test_connector_creation() {
    let connector = MqttSourceConnector::new();
    assert_eq!(connector.offset_counter, 0);
    assert!(connector.config.topic_mappings.is_empty());
}

fn broker_mapping(pattern: &str, topic: &str) -> TopicMapping {
    TopicMapping {
        mqtt_topic: pattern.to_string(),
        danube_topic: topic.to_string(),
        qos: QoS::AtLeastOnce,
        partitions: 0,
        reliable_dispatch: None,
    }
}

#[test]
fn test_first_match_wins() {
    let mappings = vec![
        broker_mapping("sensors/+/data", "/mqtt/single"),
        broker_mapping("sensors/#", "/mqtt/all"),
    ];

    let hit = find_mapping_static("sensors/temp/data", &mappings).unwrap();
    assert_eq!(hit.danube_topic, "/mqtt/single");

    let hit = find_mapping_static("sensors/zone1/pressure/raw", &mappings).unwrap();
    assert_eq!(hit.danube_topic, "/mqtt/all");

    assert!(find_mapping_static("devices/temp", &mappings).is_none());
}

#[test]
fn test_publish_to_record() {
    let mapping = broker_mapping("sensors/#", "/mqtt/sensors");

    let record = publish_to_record_static(
        "sensors/temp",
        b"{\"v\":1}".to_vec(),
        QoS::AtLeastOnce,
        false,
        true,
        &mapping,
        true,
    );

    assert_eq!(record.topic, "/mqtt/sensors");
    assert_eq!(record.payload, SourcePayload::Json(b"{\"v\":1}".to_vec()));
    let attrs: Vec<(&str, &str)> =
        record.attributes.iter().map(|(k, v)| (k.as_str(), v.as_str())).collect();
    assert_eq!(
        attrs,
        vec![
            ("mqtt.topic", "sensors/temp"),
            ("mqtt.qos", "1"),
            ("mqtt.retain", "false"),
            ("mqtt.dup", "true"),
            ("source", "mqtt"),
        ]
    );
    assert_eq!(record.key.as_deref(), Some("sensors/temp"));
}

#[test]
fn test_publish_to_record_envelope_fallback() {
    let mapping = broker_mapping("sensors/#", "/mqtt/sensors");
    let raw = vec![0xffu8, 0x00, 0x7f];

    let record = publish_to_record_static(
        "sensors/temp",
        raw.clone(),
        QoS::AtMostOnce,
        false,
        false,
        &mapping,
        false,
    );

    match record.payload {
        SourcePayload::Envelope(env) => {
            assert_eq!(env.data, base64::engine::general_purpose::STANDARD.encode(&raw));
            assert_eq!(env.size, 3);
        },
        other => panic!("expected the envelope, got {:?}", other),
    }
    assert!(record.attributes.is_empty());
}

#[test]
fn test_mqtt_producer_configs() {
    let mut config = MqttConfig {
        broker_host: "localhost".to_string(),
        broker_port: 1883,
        client_id: "test-client".to_string(),
        username: None,
        password: None,
        use_tls: false,
        keep_alive_secs: 60,
        connection_timeout_secs: 30,
        max_packet_size: 1024,
        topic_mappings: vec![broker_mapping("sensors/#", "/mqtt/sensors")],
        clean_session: true,
        include_metadata: true,
        tcp_nodelay: true,
    };
    config.topic_mappings[0].partitions = 3;

    let connector = MqttSourceConnector::with_config(config);
    let configs = connector.producer_configs().unwrap();
    assert_eq!(configs.len(), 1);
    assert_eq!(configs[0].topic, "/mqtt/sensors");
    assert_eq!(configs[0].partitions, 3);
    assert!(configs[0].reliable_dispatch);
}

fn headers(pairs: &[(&str, &str)]) -> Vec<(String, String)> {
    pairs.iter().map(|(k, v)| (k.to_string(), v.to_string())).collect()
}

#[test]
fn test_extract_client_ip() {
    let hs = headers(&[("x-forwarded-for", "192.168.1.1, 10.0.0.1")]);
    let ip = extract_client_ip(&hs);
    assert_eq!(ip, Some("192.168.1.1".to_string()));

    let hs = headers(&[("x-real-ip", "192.168.1.2")]);
    let ip = extract_client_ip(&hs);
    assert_eq!(ip, Some("192.168.1.2".to_string()));
}

#[test]
fn test_ip_extraction() {
    let _ = extract_client_ip(&Vec::new());
}

#[test]
fn test_jwt_auth_round_trip() {
    let secret = "token-secret".to_string();

    // A token signed with the same secret and a future expiry verifies.
    let mut claims = serde_json::Map::new();
    claims.insert("sub".to_string(), serde_json::Value::String("tester".to_string()));
    let exp = chrono::Utc::now().timestamp() + 3600;
    claims.insert("exp".to_string(), serde_json::Value::Number(exp.into()));
    let token = jsonwebtoken::encode(
        &jsonwebtoken::Header::default(),
        &serde_json::Value::Object(claims),
        &jsonwebtoken::EncodingKey::from_secret(secret.as_bytes()),
    )
    .unwrap();

    let hs = headers(&[("authorization", &format!("Bearer {}", token))]);
    assert!(verify_jwt(&hs, Some(&secret)).is_ok());

    // The same token against another secret is rejected.
    let other = "another-secret".to_string();
    assert!(matches!(verify_jwt(&hs, Some(&other)), Err(AuthError::Invalid(_))));

    // A credential that is not a bearer token is rejected before any
    // verification.
    let hs = headers(&[("authorization", "Basic abc")]);
    assert!(matches!(verify_jwt(&hs, Some(&secret)), Err(AuthError::Invalid(_))));

    // No credential at all.
    assert!(matches!(verify_jwt(&Vec::new(), Some(&secret)), Err(AuthError::Missing(_))));
}

#[test]
fn test_hash_matches_zero_trailing_segments() {
    // A terminal multi-segment wildcard matches the parent topic itself.
    assert!(MqttSourceConnector::topic_matches("sensors/#", "sensors"));
    assert!(MqttSourceConnector::topic_matches("#", "anything/at/all"));
    assert!(MqttSourceConnector::topic_matches("#", ""));

    // A multi-segment wildcard anywhere but last matches nothing.
    assert!(!MqttSourceConnector::topic_matches("sensors/#/data", "sensors/temp/data"));
    assert!(!MqttSourceConnector::topic_matches("#/data", "temp/data"));
}
