//! Code-graph ingestion: identities, records and store statements for a
//! property graph of TypeScript entities and their relations.

pub mod error;
pub mod text;
pub mod model;
pub mod identity;
pub mod db;
pub mod parser;
pub mod imports;
pub mod git;
pub mod fs;
pub mod query;
pub mod plan;
pub mod ingest;
pub mod counting;
