//! The broker source: external broker messages routed through wildcard
//! topic patterns onto bus topics.

pub mod config;
pub mod connector;
