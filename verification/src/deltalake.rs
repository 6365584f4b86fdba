//! The table-lake sink: bus records projected onto a declared table schema
//! as typed columns, batched and written atomically.

pub mod config;
pub mod connector;
pub mod record;
