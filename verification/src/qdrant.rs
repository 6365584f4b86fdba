//! The vector-database sink: bus messages carrying embeddings become
//! points, validated against the mapping's declared dimension.

pub mod config;
pub mod connector;
pub mod transform;
