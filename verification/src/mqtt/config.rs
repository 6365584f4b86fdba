//! Configuration of the broker source: connection settings, quality of
//! service, and pattern-to-topic mappings, with validation.

use vstd::prelude::*;

use crate::bus::{ConnectorConfig, ConnectorError, ErrorKind};

verus! {

/// Broker quality-of-service level.
#[derive(Clone, Copy, Debug, PartialEq, Eq, Structural)]
pub enum QoS {
    /// At most once delivery.
    AtMostOnce,
    /// At least once delivery.
    AtLeastOnce,
    /// Exactly once delivery.
    ExactlyOnce,
}

impl QoS {
    /// The protocol's numeric level.
    pub fn level(&self) -> (r: u8)
        ensures
            r == match self {
                QoS::AtMostOnce => 0u8,
                QoS::AtLeastOnce => 1u8,
                QoS::ExactlyOnce => 2u8,
            },
    {
        match self {
            QoS::AtMostOnce => 0,
            QoS::AtLeastOnce => 1,
            QoS::ExactlyOnce => 2,
        }
    }
}

/// The whole source configuration: core connector settings plus the
/// broker-specific block.
#[derive(Debug)]
pub struct MqttSourceConfig {
    pub core: ConnectorConfig,
    pub mqtt: MqttConfig,
}

/// Broker-specific settings.
#[derive(Debug)]
pub struct MqttConfig {
    pub broker_host: String,
    pub broker_port: u16,
    pub client_id: String,
    pub username: Option<String>,
    pub password: Option<String>,
    pub use_tls: bool,
    pub keep_alive_secs: u64,
    pub connection_timeout_secs: u64,
    pub max_packet_size: usize,
    pub topic_mappings: Vec<TopicMapping>,
    pub clean_session: bool,
    /// Attach broker metadata as record attributes.
    pub include_metadata: bool,
    pub tcp_nodelay: bool,
}

/// One pattern-to-topic mapping.  The pattern may hold a single-segment
/// wildcard `+` or a terminal multi-segment wildcard `#`.
#[derive(Debug)]
pub struct TopicMapping {
    pub mqtt_topic: String,
    pub danube_topic: String,
    pub qos: QoS,
    /// Partition count for the bus topic; zero means non-partitioned.
    pub partitions: usize,
    /// Reliable dispatch override; follows the quality of service when
    /// unset.
    pub reliable_dispatch: Option<bool>,
}

impl TopicMapping {
    /// The effective reliable-dispatch setting: the explicit override, or
    /// reliable exactly when delivery is stronger than at-most-once.
    pub fn effective_reliable_dispatch(&self) -> (r: bool)
        ensures
            r == match self.reliable_dispatch {
                Option::Some(b) => b,
                Option::None => self.qos != QoS::AtMostOnce,
            },
    {
        match self.reliable_dispatch {
            Option::Some(b) => b,
            Option::None => {
                match self.qos {
                    QoS::AtMostOnce => false,
                    _ => true,
                }
            },
        }
    }
}

pub fn default_port() -> (r: u16)
    ensures
        r == 1883,
{
    1883
}

pub fn default_keep_alive() -> (r: u64)
    ensures
        r == 60,
{
    60
}

pub fn default_connection_timeout() -> (r: u64)
    ensures
        r == 30,
{
    30
}

pub fn default_max_packet_size() -> (r: usize)
    ensures
        r == 10 * 1024 * 1024,
{
    10 * 1024 * 1024
}

pub fn default_true() -> (r: bool)
    ensures
        r == true,
{
    true
}

pub fn default_qos() -> (r: QoS)
    ensures
        r == QoS::AtLeastOnce,
{
    QoS::AtLeastOnce
}

/// A well-formed mapping: both topics present.
pub open spec fn mapping_valid(m: &TopicMapping) -> bool {
    m.mqtt_topic@.len() > 0 && m.danube_topic@.len() > 0
}

/// A well-formed broker configuration.
pub open spec fn mqtt_config_valid(c: &MqttConfig) -> bool {
    &&& c.broker_host@.len() > 0
    &&& c.client_id@.len() > 0
    &&& c.topic_mappings@.len() > 0
    &&& forall|i: int|
        0 <= i < c.topic_mappings@.len() ==> mapping_valid(#[trigger] &c.topic_mappings@[i])
}

impl MqttConfig {
    /// Validate the configuration: accepted exactly when the broker host
    /// and client id are present and every mapping names both topics.
    #[verifier::loop_isolation(false)]
    pub fn validate(&self) -> (r: Result<(), ConnectorError>)
        ensures
            r is Ok <==> mqtt_config_valid(self),
            r matches Result::Err(e) ==> e.kind == ErrorKind::Config,
    {
        if self.broker_host.as_str().unicode_len() == 0 {
            return Result::Err(ConnectorError::config(String::from_str("empty broker host")));
        }
        if self.client_id.as_str().unicode_len() == 0 {
            return Result::Err(ConnectorError::config(String::from_str("empty client id")));
        }
        let n = self.topic_mappings.len();
        if n == 0 {
            return Result::Err(ConnectorError::config(String::from_str("no topic mappings")));
        }
        for i in 0..n
            invariant
                forall|j: int| 0 <= j < i ==> mapping_valid(#[trigger] &self.topic_mappings@[j]),
        {
            let m = &self.topic_mappings[i];
            if m.mqtt_topic.as_str().unicode_len() == 0 {
                return Result::Err(
                    ConnectorError::config(String::from_str("empty broker topic")),
                );
            }
            if m.danube_topic.as_str().unicode_len() == 0 {
                return Result::Err(ConnectorError::config(String::from_str("empty bus topic")));
            }
        }
        Result::Ok(())
    }
}

impl MqttSourceConfig {
    /// Validate the whole configuration.
    pub fn validate(&self) -> (r: Result<(), ConnectorError>)
        ensures
            r is Ok <==> mqtt_config_valid(&self.mqtt),
            r matches Result::Err(e) ==> e.kind == ErrorKind::Config,
    {
        self.mqtt.validate()
    }
}

} // verus!
