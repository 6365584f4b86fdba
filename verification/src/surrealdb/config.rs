//! Configuration of the document-database sink: connection settings and
//! topic-to-table mappings, with validation.

use vstd::prelude::*;

use crate::bus::{ConnectorConfig, ConnectorError, SubscriptionType};

verus! {

/// How records are stored in a table.
#[derive(Clone, Copy, Debug, PartialEq, Eq, Structural)]
pub enum StorageMode {
    /// Plain documents.
    Document,
    /// Time-series documents carrying a timestamp field.
    TimeSeries,
}

impl Default for StorageMode {
    fn default() -> (r: Self)
        ensures
            r == StorageMode::Document,
    {
        StorageMode::Document
    }
}

/// The whole sink configuration: core connector settings plus the
/// store-specific block.
#[derive(Debug)]
pub struct SurrealDBSinkConfig {
    pub core: ConnectorConfig,
    pub surrealdb: SurrealDBConfig,
}

/// Store-specific settings.
#[derive(Debug)]
pub struct SurrealDBConfig {
    pub url: String,
    pub namespace: String,
    pub database: String,
    pub username: Option<String>,
    pub password: Option<String>,
    pub connection_timeout_secs: u64,
    pub request_timeout_secs: u64,
    pub topic_mappings: Vec<TopicMapping>,
    /// Global batch size, overridable per topic.
    pub batch_size: usize,
    /// Global flush interval in milliseconds, overridable per topic.
    pub flush_interval_ms: u64,
}

/// One bus-topic-to-table mapping.
#[derive(Debug)]
pub struct TopicMapping {
    pub topic: String,
    pub subscription: String,
    pub subscription_type: SubscriptionType,
    pub table_name: String,
    pub include_danube_metadata: bool,
    pub expected_schema_subject: Option<String>,
    pub batch_size: Option<usize>,
    pub flush_interval_ms: Option<u64>,
    pub storage_mode: StorageMode,
}

pub fn default_connection_timeout() -> (r: u64)
    ensures
        r == 30,
{
    30
}

pub fn default_request_timeout() -> (r: u64)
    ensures
        r == 30,
{
    30
}

pub fn default_batch_size() -> (r: usize)
    ensures
        r == 100,
{
    100
}

pub fn default_flush_interval_ms() -> (r: u64)
    ensures
        r == 1000,
{
    1000
}

pub fn default_include_metadata() -> (r: bool)
    ensures
        r == true,
{
    true
}

pub fn default_subscription_type() -> (r: SubscriptionType)
    ensures
        r == SubscriptionType::Shared,
{
    SubscriptionType::Shared
}

/// A well-formed mapping: no blank topic, subscription or table name.
pub open spec fn mapping_valid(m: &TopicMapping) -> bool {
    m.topic@.len() > 0 && m.subscription@.len() > 0 && m.table_name@.len() > 0
}

/// A well-formed configuration: connection names present and every mapping
/// well-formed, with at least one mapping.
pub open spec fn config_valid(c: &SurrealDBSinkConfig) -> bool {
    &&& c.surrealdb.url@.len() > 0
    &&& c.surrealdb.namespace@.len() > 0
    &&& c.surrealdb.database@.len() > 0
    &&& c.surrealdb.topic_mappings@.len() > 0
    &&& forall|i: int|
        0 <= i < c.surrealdb.topic_mappings@.len() ==> mapping_valid(
            #[trigger] &c.surrealdb.topic_mappings@[i],
        )
}

impl SurrealDBSinkConfig {
    /// Validate the configuration: accepted exactly when the connection
    /// names are present and every mapping names a topic, a subscription
    /// and a table.
    pub fn validate(&self) -> (r: Result<(), ConnectorError>)
        ensures
            r is Ok <==> config_valid(self),
            r matches Result::Err(e) ==> e.kind == crate::bus::ErrorKind::Config,
    {
        if self.surrealdb.url.as_str().unicode_len() == 0 {
            return Result::Err(ConnectorError::config(String::from_str("empty url")));
        }
        if self.surrealdb.namespace.as_str().unicode_len() == 0 {
            return Result::Err(ConnectorError::config(String::from_str("empty namespace")));
        }
        if self.surrealdb.database.as_str().unicode_len() == 0 {
            return Result::Err(ConnectorError::config(String::from_str("empty database")));
        }
        let n = self.surrealdb.topic_mappings.len();
        if n == 0 {
            return Result::Err(ConnectorError::config(String::from_str("no topic mappings")));
        }
        for i in 0..n
            invariant
                n == self.surrealdb.topic_mappings@.len(),
                forall|j: int|
                    0 <= j < i ==> mapping_valid(#[trigger] &self.surrealdb.topic_mappings@[j]),
        {
            let m = &self.surrealdb.topic_mappings[i];
            if m.topic.as_str().unicode_len() == 0 {
                return Result::Err(ConnectorError::config(String::from_str("empty topic")));
            }
            if m.subscription.as_str().unicode_len() == 0 {
                return Result::Err(ConnectorError::config(String::from_str("empty subscription")));
            }
            if m.table_name.as_str().unicode_len() == 0 {
                return Result::Err(ConnectorError::config(String::from_str("empty table name")));
            }
        }
        Result::Ok(())
    }
}

} // verus!
