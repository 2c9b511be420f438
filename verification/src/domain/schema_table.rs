//! The tabular form of one record collection of a response.

use vstd::prelude::*;

verus! {

/// One normalised table.
#[derive(Debug, Clone, PartialEq, Eq)]
pub struct SchemaTable {
    /// Human-readable title.
    pub title: String,
    /// Column names, in order.
    pub headers: Vec<String>,
    /// The rows; each holds one cell per column.
    pub rows: Vec<Vec<String>>,
    /// How many records the source held, which may be more than `rows` shows.
    pub total_records: usize,
}

/// What a [`SchemaTable`] holds, as plain sequences of characters.
pub struct SchemaTableView {
    pub title: Seq<char>,
    pub headers: Seq<Seq<char>>,
    pub rows: Seq<Seq<Seq<char>>>,
    pub total_records: nat,
}

impl View for SchemaTable {
    type V = SchemaTableView;

    open spec fn view(&self) -> SchemaTableView {
        SchemaTableView {
            title: self.title@,
            headers: self.headers.deep_view(),
            rows: self.rows.deep_view(),
            total_records: self.total_records as nat,
        }
    }
}

impl DeepView for SchemaTable {
    type V = SchemaTableView;

    open spec fn deep_view(&self) -> SchemaTableView {
        self.view()
    }
}

impl SchemaTableView {
    /// Every row holds one cell per column.
    pub open spec fn rows_aligned(self) -> bool {
        forall|i: int| 0 <= i < self.rows.len() ==> (#[trigger] self.rows[i]).len() == self.headers.len()
    }
}

impl SchemaTable {
    /// Builds a table that shows every record it stands for.
    pub fn new(title: String, headers: Vec<String>, rows: Vec<Vec<String>>) -> (table: Self)
        ensures
            table@.title == title@,
            table@.headers == headers.deep_view(),
            table@.rows == rows.deep_view(),
            table@.total_records == rows.len(),
    {
        let rows_len = rows.len();
        SchemaTable { title, headers, rows, total_records: rows_len }
    }
}

} // verus!
