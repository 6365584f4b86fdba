//! The document-database sink: bus topics written as table documents, with
//! optional time-series timestamping and source metadata.

pub mod config;
pub mod connector;
pub mod record;
