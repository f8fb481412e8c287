//! Layout choices of card contents, and the rows of a stats table.

use vstd::prelude::*;

verus! {

/// Horizontal placement of content in its box.
#[derive(Debug, Clone, Copy, PartialEq, Eq, Structural)]
pub enum Alignment {
    Left,
    Center,
    Right,
}

impl Default for Alignment {
    /// Left, the default placement.
    fn default() -> (a: Self)
        ensures
            a == Alignment::Left,
    {
        Alignment::Left
    }
}

/// Vertical placement of content in its box.
#[derive(Debug, Clone, Copy, PartialEq, Eq, Structural)]
pub enum VerticalAlignment {
    Top,
    Middle,
    Bottom,
}

/// The kinds of shapes a box can draw.
#[derive(Debug, Clone, Copy, PartialEq, Eq, Structural)]
pub enum ShapeType {
    Rectangle,
    Circle,
    Line,
    RoundedRectangle,
}

/// The cells of a table: rows of exactly `columns` texts each.
pub struct TableRows {
    columns: usize,
    rows: Vec<Vec<String>>,
}

/// The mathematical value of a list of rows.
pub open spec fn rows_view(rows: Seq<Vec<String>>) -> Seq<Seq<Seq<char>>> {
    rows.map_values(|r: Vec<String>| r@.map_values(|c: String| c@))
}

impl TableRows {
    #[verifier::type_invariant]
    spec fn rows_fit(self) -> bool {
        forall|i: int| 0 <= i < self.rows@.len() ==> #[trigger] self.rows@[i].len() == self.columns
    }

    /// Number of cells in every row.
    pub closed spec fn column_count(&self) -> nat {
        self.columns as nat
    }

    /// The rows, in the order they were added.
    pub closed spec fn view(&self) -> Seq<Seq<Seq<char>>> {
        rows_view(self.rows@)
    }

    /// A table of `columns` columns without rows.
    pub fn new(columns: usize) -> (t: Self)
        ensures
            t.column_count() == columns,
            t.view() == Seq::<Seq<Seq<char>>>::empty(),
    {
        let t = TableRows { columns, rows: Vec::new() };
        assert(t.view() =~= Seq::<Seq<Seq<char>>>::empty());
        t
    }

    /// Number of cells in every row.
    pub fn columns(&self) -> (n: usize)
        ensures
            n == self.column_count(),
    {
        self.columns
    }

    /// Adds `row` at the bottom when it has exactly one cell per column;
    /// a row of any other length is left out.
    pub fn add_row(self, row: Vec<String>) -> (t: Self)
        ensures
            t.column_count() == self.column_count(),
            row@.len() == self.column_count() ==> t.view() == self.view().push(row@.map_values(|c: String| c@)),
            row@.len() != self.column_count() ==> t.view() == self.view(),
    {
        proof { use_type_invariant(&self); }
        let TableRows { columns, mut rows } = self;
        if row.len() == columns {
            let ghost before = rows@;
            let ghost r = row@;
            rows.push(row);
            assert(rows_view(rows@) =~= rows_view(before).push(r.map_values(|c: String| c@)));
        }
        TableRows { columns, rows }
    }

    /// The rows.
    pub fn rows(&self) -> (r: &Vec<Vec<String>>)
        ensures
            rows_view(r@) == self.view(),
            forall|i: int| 0 <= i < r@.len() ==> #[trigger] r@[i].len() == self.column_count(),
    {
        proof { use_type_invariant(self); }
        &self.rows
    }
}

} // verus!
