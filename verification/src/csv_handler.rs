//! CSV answers are passed through as they come; this module tells them
//! from JSON answers.

use vstd::prelude::*;
use crate::text::{contains_text, str_contains};

verus! {

/// The handler of CSV answers.
pub struct CsvHandler;

impl CsvHandler {
    /// Whether a content type names CSV: it holds `text/csv` or
    /// `application/csv`.
    pub fn detect_csv(content_type: &str) -> (r: bool)
        ensures
            r == (contains_text(content_type@, "text/csv"@) || contains_text(
                content_type@,
                "application/csv"@,
            )),
    {
        str_contains(content_type, "text/csv") || str_contains(content_type, "application/csv")
    }
}

} // verus!
