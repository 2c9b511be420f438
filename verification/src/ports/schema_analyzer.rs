//! Comparing a table with the table that was expected.

use vstd::prelude::*;
use crate::domain::schema_table::SchemaTable;
use crate::error::ExplorerError;

verus! {

/// An analyzer that describes how a table differs from the one expected.
pub trait SchemaAnalyzer: Send + Sync {
    /// Describes the difference between the two tables, or gives `None`
    /// where there is none.
    fn compute_schema_diff(&self, current: &SchemaTable, expected: &SchemaTable) -> Result<
        Option<String>,
        ExplorerError,
    >;
}

} // verus!
