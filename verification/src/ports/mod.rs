//! What the library asks of its surroundings.

pub mod schema_analyzer;

pub use schema_analyzer::SchemaAnalyzer;
