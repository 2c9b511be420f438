//! The report writer: tables and errors as markdown, gathered in memory.

use vstd::prelude::*;
use vstd::string::StringExecFns;
use crate::domain::schema_table::{SchemaTable, SchemaTableView};
use crate::error::ExplorerError;
use crate::text::{decimal, decimal_string};

verus! {

/// The items, with the separator between each two of them.
pub open spec fn joined(items: Seq<Seq<char>>, sep: Seq<char>) -> Seq<char>
    decreases items.len(),
{
    if items.len() == 0 {
        Seq::empty()
    } else if items.len() == 1 {
        items[0]
    } else {
        joined(items.drop_last(), sep) + sep + items.last()
    }
}

/// `level` hash signs.
pub open spec fn hashes(level: nat) -> Seq<char>
    decreases level,
{
    if level == 0 {
        Seq::empty()
    } else {
        hashes((level - 1) as nat) + "#"@
    }
}

/// A heading of the level given, followed by an empty line.
pub open spec fn heading_text(text: Seq<char>, level: nat) -> Seq<char> {
    hashes(level) + " "@ + text + "\n\n"@
}

/// One line of a table.
pub open spec fn line_text(cells: Seq<Seq<char>>) -> Seq<char> {
    "| "@ + joined(cells, " | "@) + " |\n"@
}

/// The cells of the line that parts the headers from the rows.
pub open spec fn separator_cells(columns: nat) -> Seq<Seq<char>> {
    Seq::new(columns, |i: int| "---"@)
}

/// The lines of the rows.
pub open spec fn rows_text(rows: Seq<Seq<Seq<char>>>) -> Seq<char>
    decreases rows.len(),
{
    if rows.len() == 0 {
        Seq::empty()
    } else {
        rows_text(rows.drop_last()) + line_text(rows.last())
    }
}

/// The note under a table that shows fewer rows than it counts records.
pub open spec fn truncation_note(shown: nat, total: nat) -> Seq<char> {
    if total > shown {
        "_(Showing "@ + decimal(shown) + " of "@ + decimal(total) + " total records)_\n\n"@
    } else {
        Seq::empty()
    }
}

/// A table as markdown.
pub open spec fn table_text(t: SchemaTableView) -> Seq<char> {
    if t.headers.len() == 0 {
        heading_text(t.title, 2) + "_No data available._\n\n"@
    } else {
        heading_text(t.title, 2) + line_text(t.headers) + line_text(
            separator_cells(t.headers.len()),
        ) + rows_text(t.rows) + "\n"@ + truncation_note(t.rows.len(), t.total_records)
    }
}

/// An error as markdown.
pub open spec fn error_text(e: ExplorerError) -> Seq<char> {
    "> **Error**\n> "@ + e.message_spec() + "\n\n"@
}

/// Appends the items to `buffer`, with the separator between each two.
pub fn append_joined(buffer: &mut String, items: &Vec<String>, sep: &str)
    ensures
        final(buffer)@ == old(buffer)@ + joined(items.deep_view(), sep@),
{
    let ghost start = buffer@;
    let ghost views = items.deep_view();
    let mut i: usize = 0;
    assert(buffer@ =~= start + joined(views.take(0), sep@));
    while i < items.len()
        invariant
            i <= items@.len(),
            views == items.deep_view(),
            buffer@ == start + joined(views.take(i as int), sep@),
        decreases items@.len() - i,
    {
        proof {
            assert(views.take(i + 1).drop_last() =~= views.take(i as int));
            assert(views.take(i + 1).last() == items@[i as int]@);
        }
        if i > 0 {
            buffer.append(sep);
        }
        buffer.append(items[i].as_str());
        assert(buffer@ =~= start + joined(views.take(i + 1), sep@));
        i += 1;
    }
    assert(views.take(i as int) =~= views);
}

/// Appends one line of a table to `buffer`.
fn append_line(buffer: &mut String, cells: &Vec<String>)
    ensures
        final(buffer)@ == old(buffer)@ + line_text(cells.deep_view()),
{
    let ghost start = buffer@;
    buffer.append("| ");
    append_joined(buffer, cells, " | ");
    buffer.append(" |\n");
    assert(buffer@ =~= start + line_text(cells.deep_view()));
}

/// A writer that gathers a report in memory.
pub struct MarkdownWriterImpl {
    buffer: String,
    truncate_rows: bool,
}

impl MarkdownWriterImpl {
    /// What was written so far.
    pub closed spec fn text(&self) -> Seq<char> {
        self.buffer@
    }

    /// Whether the writer is meant for reports with capped tables.
    pub closed spec fn truncates(&self) -> bool {
        self.truncate_rows
    }

    /// A writer for reports with capped tables, with nothing written.
    pub fn new() -> (w: Self)
        ensures
            w.text() == Seq::<char>::empty(),
            w.truncates(),
    {
        MarkdownWriterImpl { buffer: String::new(), truncate_rows: true }
    }

    /// A writer with nothing written.
    pub fn with_truncation(truncate: bool) -> (w: Self)
        ensures
            w.text() == Seq::<char>::empty(),
            w.truncates() == truncate,
    {
        MarkdownWriterImpl { buffer: String::new(), truncate_rows: truncate }
    }

    /// Writes a heading of the level given.
    pub fn write_heading(&mut self, text: &str, level: usize)
        ensures
            final(self).text() == old(self).text() + heading_text(text@, level as nat),
            final(self).truncates() == old(self).truncates(),
    {
        let ghost start = self.buffer@;
        let mut i: usize = 0;
        assert(self.buffer@ =~= start + hashes(0));
        while i < level
            invariant
                i <= level,
                self.buffer@ == start + hashes(i as nat),
                self.truncate_rows == old(self).truncate_rows,
            decreases level - i,
        {
            self.buffer.append("#");
            assert(self.buffer@ =~= start + hashes((i + 1) as nat));
            i += 1;
        }
        self.buffer.append(" ");
        self.buffer.append(text);
        self.buffer.append("\n\n");
        assert(self.buffer@ =~= start + heading_text(text@, level as nat));
    }

    /// What was written so far.
    pub fn as_str(&self) -> (s: &str)
        ensures
            s@ == self.text(),
    {
        self.buffer.as_str()
    }

    /// Whether the writer is meant for reports with capped tables.
    pub fn truncate_rows(&self) -> (r: bool)
        ensures
            r == self.truncates(),
    {
        self.truncate_rows
    }

    /// Writes a table: its title as a heading, then its headers and rows,
    /// and a note where it shows fewer rows than it counts records. A table
    /// without headers is written as its title and a line that says so.
    ///
    /// The result is always `Ok`.
    pub fn write_table(&mut self, table: &SchemaTable) -> (r: Result<(), ExplorerError>)
        ensures
            r is Ok,
            final(self).text() == old(self).text() + table_text(table@),
            final(self).truncates() == old(self).truncates(),
    {
        let ghost start = self.buffer@;
        self.write_heading(table.title.as_str(), 2);
        if table.headers.len() == 0 {
            self.buffer.append("_No data available._\n\n");
            assert(self.buffer@ =~= start + table_text(table@));
            return Ok(());
        }
        append_line(&mut self.buffer, &table.headers);

        let mut separators: Vec<String> = Vec::new();
        let mut c: usize = 0;
        while c < table.headers.len()
            invariant
                c <= table.headers@.len(),
                separators@.len() == c,
                forall|k: int| 0 <= k < c ==> (#[trigger] separators@[k])@ == "---"@,
            decreases table.headers@.len() - c,
        {
            separators.push(String::from_str("---"));
            c += 1;
        }
        assert(separators.deep_view() =~= separator_cells(table@.headers.len()));
        append_line(&mut self.buffer, &separators);

        let ghost head = self.buffer@;
        let ghost rows = table@.rows;
        let mut i: usize = 0;
        assert(self.buffer@ =~= head + rows_text(rows.take(0)));
        while i < table.rows.len()
            invariant
                i <= table.rows@.len(),
                rows == table@.rows,
                rows.len() == table.rows@.len(),
                self.buffer@ == head + rows_text(rows.take(i as int)),
                self.truncate_rows == old(self).truncate_rows,
            decreases table.rows@.len() - i,
        {
            proof {
                assert(rows.take(i + 1).drop_last() =~= rows.take(i as int));
                assert(rows.take(i + 1).last() == table.rows@[i as int].deep_view());
            }
            append_line(&mut self.buffer, &table.rows[i]);
            assert(self.buffer@ =~= head + rows_text(rows.take(i + 1)));
            i += 1;
        }
        assert(rows.take(i as int) =~= rows);
        self.buffer.append("\n");
        if table.total_records > table.rows.len() {
            self.buffer.append("_(Showing ");
            self.buffer.append(decimal_string(table.rows.len() as u64).as_str());
            self.buffer.append(" of ");
            self.buffer.append(decimal_string(table.total_records as u64).as_str());
            self.buffer.append(" total records)_\n\n");
        }
        assert(self.buffer@ =~= start + table_text(table@));
        Ok(())
    }

    /// Writes an error as a quotation.
    ///
    /// The result is always `Ok`.
    pub fn write_error(&mut self, error: &ExplorerError) -> (r: Result<(), ExplorerError>)
        ensures
            r is Ok,
            final(self).text() == old(self).text() + error_text(*error),
            final(self).truncates() == old(self).truncates(),
    {
        let ghost start = self.buffer@;
        self.buffer.append("> **Error**\n> ");
        self.buffer.append(error.message().as_str());
        self.buffer.append("\n\n");
        assert(self.buffer@ =~= start + error_text(*error));
        Ok(())
    }
}

} // verus!
