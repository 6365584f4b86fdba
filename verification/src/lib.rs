//! A family of streaming connectors bridging a log-oriented pub/sub bus with
//! external stores: sink connectors that batch bus records into a table lake,
//! a vector database and a document database, and source connectors that turn
//! broker messages and HTTP webhooks into bus records.
//!
//! The crate holds the connector engine itself: mapping registries with
//! effective per-mapping parameters, payload transformation, per-mapping
//! buffering with size- and time-driven flushes, and the retry discipline
//! that couples store acknowledgments to bus-offset commits.  The I/O around
//! it (file and network clients, the async runtime) lives outside.

pub mod buffer;
pub mod bus;
pub mod deltalake;
pub mod envelope;
pub mod mqtt;
pub mod qdrant;
pub mod surrealdb;
pub mod text;
pub mod timefmt;
pub mod value;
pub mod webhook;

