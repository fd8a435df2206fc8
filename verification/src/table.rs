//! The table view model: rows of named cells under a derived header row.
//!
//! A fetch batch arrives as schema-less records; headers are derived once,
//! from the first record of the batch. No invariant forces the other rows
//! onto the same schema: the source's records may differ, and the model
//! keeps whatever each row holds.

use crate::value::{iv_view, ItemValue, ValueView};
use vstd::prelude::*;

verus! {

/// One named cell of a row.
#[derive(Debug)]
pub struct KV {
    pub key: String,
    pub value: ItemValue,
}

/// One record of a table: an ordered sequence of named cells, in insertion
/// order from the source record.
#[derive(Debug)]
pub struct TableRow {
    pub data: Vec<KV>,
}

/// Mathematical model of a [`TableRow`]: its cells as name/value pairs.
pub open spec fn row_view(r: TableRow) -> Seq<(Seq<char>, ValueView)> {
    Seq::new(r.data@.len(), |i: int| (r.data@[i].key@, iv_view(r.data@[i].value)))
}

impl View for TableRow {
    type V = Seq<(Seq<char>, ValueView)>;

    open spec fn view(&self) -> Seq<(Seq<char>, ValueView)> {
        row_view(*self)
    }
}

/// Mathematical model of a table: the header names and the rows.
pub struct TableView {
    pub headers: Seq<Seq<char>>,
    pub rows: Seq<Seq<(Seq<char>, ValueView)>>,
}

/// The currently displayed table: a header row and data rows.
#[derive(Debug)]
pub struct NebTable {
    pub rows: Vec<TableRow>,
    pub headers: Vec<String>,
}

impl View for NebTable {
    type V = TableView;

    open spec fn view(&self) -> TableView {
        TableView {
            headers: Seq::new(self.headers@.len(), |i: int| self.headers@[i]@),
            rows: Seq::new(self.rows@.len(), |i: int| row_view(self.rows@[i])),
        }
    }
}

/// The key names of a row, in order.
pub open spec fn row_keys(r: Seq<(Seq<char>, ValueView)>) -> Seq<Seq<char>> {
    Seq::new(r.len(), |i: int| r[i].0)
}

/// Headers are derived from the first row of the batch: if there are rows,
/// the headers are exactly the first row's key names.
pub open spec fn headers_match_first_row(t: TableView) -> bool {
    t.rows.len() > 0 ==> t.headers == row_keys(t.rows[0])
}

impl NebTable {
    /// A table from its parts, kept as given.
    pub fn new(headers: Vec<String>, rows: Vec<TableRow>) -> (t: Self)
        ensures
            t.headers == headers,
            t.rows == rows,
    {
        Self { headers, rows }
    }
}

impl Default for NebTable {
    /// The empty table: no headers, no rows.
    fn default() -> (t: Self)
        ensures
            t@.headers.len() == 0,
            t@.rows.len() == 0,
    {
        NebTable { rows: Vec::new(), headers: Vec::new() }
    }
}

/// Build the displayed table from a fetch batch: the rows as given, the
/// headers taken from the first row (empty headers for an empty batch).
pub fn table_from_rows(rows: Vec<TableRow>) -> (t: NebTable)
    ensures
        t@.rows.len() == rows@.len(),
        forall|i: int| 0 <= i < rows@.len() ==> t@.rows[i] == row_view(#[trigger] rows@[i]),
        headers_match_first_row(t@),
        rows@.len() == 0 ==> t@.headers.len() == 0,
{
    let mut headers: Vec<String> = Vec::new();
    if rows.len() > 0 {
        let first = &rows[0];
        let mut i: usize = 0;
        while i < first.data.len()
            invariant
                0 <= i <= first.data.len(),
                headers@.len() == i,
                forall|j: int| 0 <= j < i ==> (#[trigger] headers@[j])@ == first.data@[j].key@,
            decreases first.data.len() - i,
        {
            headers.push(first.data[i].key.clone());
            i += 1;
        }
    }
    let t = NebTable::new(headers, rows);
    proof {
        if t.rows@.len() > 0 {
            assert(t@.rows[0] == row_view(t.rows@[0]));
            assert(t@.headers =~= row_keys(t@.rows[0]));
        }
    }
    t
}

} // verus!
