//! Configuration of the vector-database sink: connection settings and
//! topic-to-collection mappings, with validation.

use vstd::prelude::*;

use crate::bus::{ConnectorConfig, ConnectorError, ErrorKind, SubscriptionType};

verus! {

/// Distance metric for vector similarity.
#[derive(Clone, Copy, Debug, PartialEq, Eq, Structural)]
pub enum Distance {
    /// Cosine similarity.
    Cosine,
    /// Euclidean distance.
    Euclid,
    /// Dot product.
    Dot,
    /// Manhattan distance.
    Manhattan,
}

/// The whole sink configuration: core connector settings plus the
/// store-specific block.
#[derive(Debug)]
pub struct QdrantSinkConfig {
    pub core: ConnectorConfig,
    pub qdrant: QdrantConfig,
}

/// Store-specific settings.
#[derive(Debug)]
pub struct QdrantConfig {
    pub url: String,
    pub api_key: Option<String>,
    pub topic_mappings: Vec<TopicMapping>,
    /// Global batch size for bulk upserts, overridable per topic.
    pub batch_size: usize,
    /// Global batch timeout in milliseconds, overridable per topic.
    pub batch_timeout_ms: u64,
    /// Timeout for store operations, in seconds.
    pub timeout_secs: u64,
}

/// One bus-topic-to-collection mapping.
#[derive(Debug)]
pub struct TopicMapping {
    pub topic: String,
    pub subscription: String,
    pub subscription_type: SubscriptionType,
    pub collection_name: String,
    /// Expected embedding dimension for this topic.
    pub vector_dimension: usize,
    pub distance: Distance,
    pub auto_create_collection: bool,
    pub include_danube_metadata: bool,
    pub expected_schema_subject: Option<String>,
    pub batch_size: Option<usize>,
    pub batch_timeout_ms: Option<u64>,
}

impl TopicMapping {
    /// The effective batch size: this mapping's override or the global.
    pub fn effective_batch_size(&self, global: usize) -> (r: usize)
        ensures
            r == match self.batch_size {
                Option::Some(b) => b,
                Option::None => global,
            },
    {
        match self.batch_size {
            Option::Some(b) => b,
            Option::None => global,
        }
    }

    /// The effective batch timeout: this mapping's override or the global.
    pub fn effective_batch_timeout(&self, global: u64) -> (r: u64)
        ensures
            r == match self.batch_timeout_ms {
                Option::Some(t) => t,
                Option::None => global,
            },
    {
        match self.batch_timeout_ms {
            Option::Some(t) => t,
            Option::None => global,
        }
    }
}

pub fn default_distance() -> (r: Distance)
    ensures
        r == Distance::Cosine,
{
    Distance::Cosine
}

pub fn default_batch_size() -> (r: usize)
    ensures
        r == 100,
{
    100
}

pub fn default_batch_timeout() -> (r: u64)
    ensures
        r == 1000,
{
    1000
}

pub fn default_auto_create() -> (r: bool)
    ensures
        r == true,
{
    true
}

pub fn default_include_metadata() -> (r: bool)
    ensures
        r == true,
{
    true
}

pub fn default_timeout() -> (r: u64)
    ensures
        r == 30,
{
    30
}

pub fn default_subscription_type() -> (r: SubscriptionType)
    ensures
        r == SubscriptionType::Exclusive,
{
    SubscriptionType::Exclusive
}

/// A well-formed mapping: a topic, a collection, a subscription and a
/// non-zero dimension.
pub open spec fn mapping_valid(m: &TopicMapping) -> bool {
    m.topic@.len() > 0 && m.collection_name@.len() > 0 && m.vector_dimension > 0
        && m.subscription@.len() > 0
}

/// A well-formed store configuration.
pub open spec fn qdrant_config_valid(c: &QdrantConfig) -> bool {
    &&& c.url@.len() > 0
    &&& c.topic_mappings@.len() > 0
    &&& forall|i: int|
        0 <= i < c.topic_mappings@.len() ==> mapping_valid(#[trigger] &c.topic_mappings@[i])
    &&& c.batch_size > 0
}

impl QdrantConfig {
    /// Validate the configuration: accepted exactly when the URL is
    /// present, at least one well-formed mapping exists, and the global
    /// batch size is positive.
    pub fn validate(&self) -> (r: Result<(), ConnectorError>)
        ensures
            r is Ok <==> qdrant_config_valid(self),
            r matches Result::Err(e) ==> e.kind == ErrorKind::Config,
    {
        if self.url.as_str().unicode_len() == 0 {
            return Result::Err(ConnectorError::config(String::from_str("empty url")));
        }
        let n = self.topic_mappings.len();
        if n == 0 {
            return Result::Err(ConnectorError::config(String::from_str("no topic mappings")));
        }
        for i in 0..n
            invariant
                n == self.topic_mappings@.len(),
                forall|j: int| 0 <= j < i ==> mapping_valid(#[trigger] &self.topic_mappings@[j]),
        {
            let m = &self.topic_mappings[i];
            if m.topic.as_str().unicode_len() == 0 {
                return Result::Err(ConnectorError::config(String::from_str("empty topic")));
            }
            if m.collection_name.as_str().unicode_len() == 0 {
                return Result::Err(
                    ConnectorError::config(String::from_str("empty collection name")),
                );
            }
            if m.vector_dimension == 0 {
                return Result::Err(
                    ConnectorError::config(String::from_str("zero vector dimension")),
                );
            }
            if m.subscription.as_str().unicode_len() == 0 {
                return Result::Err(ConnectorError::config(String::from_str("empty subscription")));
            }
        }
        if self.batch_size == 0 {
            return Result::Err(ConnectorError::config(String::from_str("zero batch size")));
        }
        Result::Ok(())
    }
}

impl QdrantSinkConfig {
    /// Validate the whole configuration.
    pub fn validate(&self) -> (r: Result<(), ConnectorError>)
        ensures
            r is Ok <==> qdrant_config_valid(&self.qdrant),
            r matches Result::Err(e) ==> e.kind == ErrorKind::Config,
    {
        self.qdrant.validate()
    }
}

} // verus!
