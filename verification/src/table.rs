use vstd::prelude::*;

use crate::widths::{calculate_widths, col_width, num_cols, widths_of};

verus! {

/// Which of the two renderers draws the table.
#[derive(Clone, Copy, PartialEq, Eq, Structural, Debug)]
pub enum Style {
    /// Whitespace-aligned rendering with no borders.
    Basic,
    /// Box-drawing-bordered rendering with optional separators.
    Fancy,
}

/// How a table is rendered: the style, the padding put around each field,
/// and whether the box-drawing style separates the header row or every row.
#[derive(Clone, Copy, PartialEq, Eq, Structural, Debug)]
pub struct RenderOptions {
    pub style: Style,
    pub spacing: usize,
    pub headers: bool,
    pub separators: bool,
}

/// Failure while building the output text. The renderers build the whole
/// output in memory and are proved to succeed on every well-formed table,
/// so they never actually produce a value of this type.
#[derive(Clone, Copy, PartialEq, Eq, Structural, Debug)]
pub struct FormatError;

/// The records of one input, with the column widths derived from them.
pub struct Table {
    pub records: Vec<Vec<String>>,
    pub widths: Vec<usize>,
}

impl Table {
    /// The widths belong to the records: one entry per column of the first
    /// record, each entry the widest field of its column.
    pub open spec fn wf(self) -> bool {
        &&& self.widths@.len() == num_cols(self.records.deep_view())
        &&& forall|j: int|
            0 <= j < self.widths@.len() ==> self.widths@[j] == col_width(
                self.records.deep_view(),
                j,
            )
        &&& self.widths@ == widths_of(self.records.deep_view())
    }

    /// Builds a table owning `records` and the widths computed from them.
    pub fn new(records: Vec<Vec<String>>) -> (t: Table)
        ensures
            t.wf(),
            t.records == records,
    {
        let widths = calculate_widths(&records);
        Table { records, widths }
    }
}

} // verus!
