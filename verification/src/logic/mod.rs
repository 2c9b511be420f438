//! The logic that reshapes responses.

pub mod json;
pub mod json_to_table;
