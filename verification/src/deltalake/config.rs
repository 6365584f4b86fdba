//! Configuration of the table-lake sink: the storage backend, declared
//! table schemas, and topic-to-table mappings, with validation.

use vstd::prelude::*;

use crate::bus::{ConnectorConfig, ConnectorError, ErrorKind};

verus! {

/// The object-storage backend behind the table lake.
#[derive(Clone, Copy, Debug, PartialEq, Eq, Structural)]
pub enum StorageBackend {
    /// An S3-compatible object store.
    S3,
    /// Azure blob storage.
    Azure,
    /// Google cloud storage.
    GCS,
}

/// How writes land in a table.
#[derive(Clone, Copy, Debug, PartialEq, Eq, Structural)]
pub enum WriteMode {
    /// Append new data to the table.
    Append,
    /// Overwrite the table's data.
    Overwrite,
}

impl Default for WriteMode {
    fn default() -> (r: Self)
        ensures
            r == WriteMode::Append,
    {
        WriteMode::Append
    }
}

/// One declared field of a table schema.
#[derive(Debug)]
pub struct SchemaField {
    pub name: String,
    /// The column type, by name.
    pub data_type: String,
    pub nullable: bool,
}

/// The whole sink configuration: core connector settings plus the
/// store-specific block.
#[derive(Debug)]
pub struct DeltaLakeSinkConfig {
    pub core: ConnectorConfig,
    pub deltalake: DeltaLakeConfig,
}

/// Store-specific settings.
#[derive(Debug)]
pub struct DeltaLakeConfig {
    pub storage_backend: StorageBackend,
    pub s3_region: Option<String>,
    pub s3_endpoint: Option<String>,
    pub s3_allow_http: bool,
    pub azure_storage_account: Option<String>,
    pub azure_container: Option<String>,
    pub gcp_project_id: Option<String>,
    pub topic_mappings: Vec<TopicMapping>,
    /// Global batch size, overridable per topic.
    pub batch_size: usize,
    /// Global flush interval in milliseconds, overridable per topic.
    pub flush_interval_ms: u64,
}

/// One bus-topic-to-table mapping.
#[derive(Debug)]
pub struct TopicMapping {
    pub topic: String,
    pub subscription: String,
    pub delta_table_path: String,
    pub schema: Vec<SchemaField>,
    pub write_mode: WriteMode,
    pub include_danube_metadata: bool,
    pub batch_size: Option<usize>,
    pub flush_interval_ms: Option<u64>,
}

impl TopicMapping {
    /// The effective batch size: this mapping's override or the global.
    pub fn effective_batch_size(&self, global: usize) -> (r: usize)
        ensures
            r == match self.batch_size {
                Option::Some(b) => b,
                Option::None => global,
            },
    {
        match self.batch_size {
            Option::Some(b) => b,
            Option::None => global,
        }
    }

    /// The effective flush interval: this mapping's override or the global.
    pub fn effective_flush_interval_ms(&self, global: u64) -> (r: u64)
        ensures
            r == match self.flush_interval_ms {
                Option::Some(f) => f,
                Option::None => global,
            },
    {
        match self.flush_interval_ms {
            Option::Some(f) => f,
            Option::None => global,
        }
    }
}

pub fn default_batch_size() -> (r: usize)
    ensures
        r == 1000,
{
    1000
}

pub fn default_flush_interval_ms() -> (r: u64)
    ensures
        r == 5000,
{
    5000
}

pub fn default_true() -> (r: bool)
    ensures
        r == true,
{
    true
}

/// Whether a type name is one of the accepted column types.
pub open spec fn arrow_type_name_ok(s: Seq<char>) -> bool {
    ||| s == "Utf8"@
    ||| s == "Int8"@
    ||| s == "Int16"@
    ||| s == "Int32"@
    ||| s == "Int64"@
    ||| s == "UInt8"@
    ||| s == "UInt16"@
    ||| s == "UInt32"@
    ||| s == "UInt64"@
    ||| s == "Float32"@
    ||| s == "Float64"@
    ||| s == "Boolean"@
    ||| s == "Timestamp"@
    ||| s == "Date32"@
    ||| s == "Date64"@
    ||| s == "Binary"@
}

/// Validate a column type name: accepted exactly when it is in the closed
/// set of supported types.
pub fn validate_arrow_type(data_type: &str) -> (r: Result<(), ConnectorError>)
    ensures
        r is Ok <==> arrow_type_name_ok(data_type@),
        r matches Result::Err(e) ==> e.kind == ErrorKind::Config,
{
    let ok = crate::text::str_eq(data_type, "Utf8") || crate::text::str_eq(data_type, "Int8")
        || crate::text::str_eq(data_type, "Int16") || crate::text::str_eq(data_type, "Int32")
        || crate::text::str_eq(data_type, "Int64") || crate::text::str_eq(data_type, "UInt8")
        || crate::text::str_eq(data_type, "UInt16") || crate::text::str_eq(data_type, "UInt32")
        || crate::text::str_eq(data_type, "UInt64") || crate::text::str_eq(data_type, "Float32")
        || crate::text::str_eq(data_type, "Float64") || crate::text::str_eq(data_type, "Boolean")
        || crate::text::str_eq(data_type, "Timestamp") || crate::text::str_eq(data_type, "Date32")
        || crate::text::str_eq(data_type, "Date64") || crate::text::str_eq(data_type, "Binary");
    if ok {
        Result::Ok(())
    } else {
        Result::Err(ConnectorError::config(String::from_str("invalid column type")))
    }
}

/// A well-formed mapping: names present, a non-empty schema, every field
/// type in the accepted set.
pub open spec fn mapping_valid(m: &TopicMapping) -> bool {
    &&& m.topic@.len() > 0
    &&& m.subscription@.len() > 0
    &&& m.delta_table_path@.len() > 0
    &&& m.schema@.len() > 0
    &&& forall|i: int|
        0 <= i < m.schema@.len() ==> arrow_type_name_ok((#[trigger] m.schema@[i]).data_type@)
}

/// The backend's required settings are present.
pub open spec fn backend_valid(c: &DeltaLakeConfig) -> bool {
    match c.storage_backend {
        StorageBackend::S3 => c.s3_region is Some,
        StorageBackend::Azure => c.azure_storage_account is Some && c.azure_container is Some,
        StorageBackend::GCS => c.gcp_project_id is Some,
    }
}

/// A well-formed configuration.
pub open spec fn config_valid(c: &DeltaLakeSinkConfig) -> bool {
    &&& c.deltalake.topic_mappings@.len() > 0
    &&& backend_valid(&c.deltalake)
    &&& forall|i: int|
        0 <= i < c.deltalake.topic_mappings@.len() ==> mapping_valid(
            #[trigger] &c.deltalake.topic_mappings@[i],
        )
}

impl DeltaLakeSinkConfig {
    /// Validate the configuration: accepted exactly when at least one
    /// mapping exists, the chosen backend's settings are present, and
    /// every mapping declares a complete schema of accepted types.
    #[verifier::loop_isolation(false)]
    pub fn validate(&self) -> (r: Result<(), ConnectorError>)
        ensures
            r is Ok <==> config_valid(self),
            r matches Result::Err(e) ==> e.kind == ErrorKind::Config,
    {
        let n = self.deltalake.topic_mappings.len();
        if n == 0 {
            return Result::Err(ConnectorError::config(String::from_str("no topic mappings")));
        }
        match self.deltalake.storage_backend {
            StorageBackend::S3 => {
                if self.deltalake.s3_region.is_none() {
                    return Result::Err(ConnectorError::config(String::from_str("missing region")));
                }
            },
            StorageBackend::Azure => {
                if self.deltalake.azure_storage_account.is_none() {
                    return Result::Err(
                        ConnectorError::config(String::from_str("missing storage account")),
                    );
                }
                if self.deltalake.azure_container.is_none() {
                    return Result::Err(
                        ConnectorError::config(String::from_str("missing container")),
                    );
                }
            },
            StorageBackend::GCS => {
                if self.deltalake.gcp_project_id.is_none() {
                    return Result::Err(
                        ConnectorError::config(String::from_str("missing project id")),
                    );
                }
            },
        }
        for i in 0..n
            invariant
                forall|j: int|
                    0 <= j < i ==> mapping_valid(#[trigger] &self.deltalake.topic_mappings@[j]),
        {
            let m = &self.deltalake.topic_mappings[i];
            if m.topic.as_str().unicode_len() == 0 {
                return Result::Err(ConnectorError::config(String::from_str("empty topic")));
            }
            if m.subscription.as_str().unicode_len() == 0 {
                return Result::Err(ConnectorError::config(String::from_str("empty subscription")));
            }
            if m.delta_table_path.as_str().unicode_len() == 0 {
                return Result::Err(ConnectorError::config(String::from_str("empty table path")));
            }
            let k = m.schema.len();
            if k == 0 {
                return Result::Err(ConnectorError::config(String::from_str("empty schema")));
            }
            for f in 0..k
                invariant
                    k == m.schema@.len(),
                    forall|j: int|
                        0 <= j < f ==> arrow_type_name_ok((#[trigger] m.schema@[j]).data_type@),
            {
                match validate_arrow_type(m.schema[f].data_type.as_str()) {
                    Result::Ok(()) => {},
                    Result::Err(e) => {
                        return Result::Err(e);
                    },
                }
            }
        }
        Result::Ok(())
    }
}

} // verus!
