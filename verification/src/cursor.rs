//! The caret, the column it aims for, and the anchor of a selection.

use vstd::prelude::*;
use crate::location::{Location, Span};

verus! {

/// The caret of a buffer.
///
/// `col_affinity` is the column that vertical moves aim for, so that passing
/// through a shorter line does not lose it. `selection_start` is the anchor
/// of the selection, `None` while nothing is selected.
#[derive(Debug, Clone, Copy, PartialEq, Eq, Structural)]
pub struct Cursor {
    pub location: Location,
    pub col_affinity: usize,
    pub selection_start: Option<Location>,
}

impl Cursor {
    /// The selection as a span from the anchor to the caret, if there is one.
    pub open spec fn selection(self) -> Option<Span> {
        match self.selection_start {
            Some(anchor) => Some(Span::between(anchor, self.location)),
            None => None,
        }
    }

    /// A caret at the start of the document with nothing selected.
    pub fn new() -> (cursor: Cursor)
        ensures
            cursor.location == (Location { row: 0, col: 0 }),
            cursor.col_affinity == 0,
            cursor.selection_start.is_none(),
    {
        Cursor { location: Location::new(), col_affinity: 0, selection_start: None }
    }

    /// Moves the caret to another row, in the same column.
    pub fn set_row(&mut self, row: usize)
        ensures
            *final(self) == (Cursor {
                location: Location { row, col: old(self).location.col },
                ..*old(self)
            }),
    {
        self.location.row = row;
    }

    /// Moves the caret within its row and leaves the aimed-for column alone.
    pub fn set_col(&mut self, col: usize)
        ensures
            *final(self) == (Cursor {
                location: Location { row: old(self).location.row, col },
                ..*old(self)
            }),
    {
        self.location.col = col;
    }

    /// Moves the caret within its row and aims for that column from now on.
    pub fn set_col_with_affinity(&mut self, col: usize)
        ensures
            *final(self) == (Cursor {
                location: Location { row: old(self).location.row, col },
                col_affinity: col,
                ..*old(self)
            }),
    {
        self.location.col = col;
        self.col_affinity = col;
    }

    /// The current selection as an ordered span, `None` if nothing is
    /// selected.
    pub fn selection_span(&self) -> (span: Option<Span>)
        ensures
            span == self.selection(),
            span matches Some(s) ==> s.is_ordered(),
            span.is_some() == self.selection_start.is_some(),
    {
        let selection_start = match self.selection_start {
            Some(selection_start) => selection_start,
            None => return None,
        };
        Some(Span::new(selection_start, self.location))
    }
}

} // verus!
