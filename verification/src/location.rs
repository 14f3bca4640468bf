//! Positions in the text and ordered ranges between them.

use vstd::prelude::*;

verus! {

/// A caret position: a row of the document and a column in that row.
///
/// Columns count characters. Positions are ordered by row first and by
/// column second, which is also the order of the derived comparison.
#[derive(Debug, Clone, Copy, PartialEq, Eq, PartialOrd, Ord, Structural)]
pub struct Location {
    pub row: usize,
    pub col: usize,
}

impl Location {
    /// The row-major order on positions.
    pub open spec fn at_or_before(self, other: Location) -> bool {
        self.row < other.row || (self.row == other.row && self.col <= other.col)
    }

    /// The start of the document.
    pub fn new() -> (loc: Location)
        ensures
            loc.row == 0,
            loc.col == 0,
    {
        Location { row: 0, col: 0 }
    }

    /// Whether `self` comes before `other` or is the same position.
    pub fn precedes(&self, other: &Location) -> (b: bool)
        ensures
            b == self.at_or_before(*other),
    {
        self.row < other.row || (self.row == other.row && self.col <= other.col)
    }
}

/// A range between two positions, kept with the earlier one first.
#[derive(Debug, Clone, Copy, PartialEq, Eq, Structural)]
pub struct Span {
    pub start: Location,
    pub end: Location,
}

impl Span {
    /// A span is ordered when its start does not come after its end.
    pub open spec fn is_ordered(self) -> bool {
        self.start.at_or_before(self.end)
    }

    /// The ordered span between two positions given in any order.
    pub open spec fn between(a: Location, b: Location) -> Span {
        if a.at_or_before(b) {
            Span { start: a, end: b }
        } else {
            Span { start: b, end: a }
        }
    }

    /// Whether the span reaches the given row.
    pub open spec fn touches(self, line: usize) -> bool {
        self.start.row <= line && line <= self.end.row
    }

    /// The columns of `line` that the span covers, start included and end
    /// excluded, for a line of `line_length` characters: the span's own
    /// columns where it begins or ends on that line, the line's edges where
    /// it runs on.
    pub open spec fn columns_on(self, line: usize, line_length: usize) -> Option<(usize, usize)> {
        if !self.touches(line) {
            None
        } else if self.start.row == self.end.row {
            Some((self.start.col, self.end.col))
        } else if self.start.row == line {
            Some((self.start.col, line_length))
        } else if self.end.row == line {
            Some((0usize, self.end.col))
        } else {
            Some((0usize, line_length))
        }
    }

    /// Builds the span between two positions, whichever of them comes first.
    pub fn new(start: Location, end: Location) -> (span: Span)
        ensures
            span == Span::between(start, end),
            span.is_ordered(),
            span.start == start && span.end == end || span.start == end && span.end == start,
    {
        if start.precedes(&end) {
            Span { start, end }
        } else {
            Span { start: end, end: start }
        }
    }

    /// Whether the span reaches the given row.
    pub fn contains_line(&self, line: usize) -> (b: bool)
        ensures
            b == self.touches(line),
    {
        self.start.row <= line && self.end.row >= line
    }

    /// The columns of a row that the span covers, `None` if it does not
    /// reach the row.
    pub fn get_char_indices_for_line(&self, line: usize, line_length: usize) -> (range: Option<
        (usize, usize),
    >)
        ensures
            range == self.columns_on(line, line_length),
    {
        if !self.contains_line(line) {
            return None;
        }
        if self.start.row == self.end.row {
            Some((self.start.col, self.end.col))
        } else if self.start.row == line {
            Some((self.start.col, line_length))
        } else if self.end.row == line {
            Some((0, self.end.col))
        } else {
            Some((0, line_length))
        }
    }
}

/// The order on positions is total: of two positions one precedes the other.
pub proof fn lemma_location_order_total(a: Location, b: Location)
    ensures
        a.at_or_before(b) || b.at_or_before(a),
        a.at_or_before(b) && b.at_or_before(a) ==> a == b,
{
}

/// The order on positions is transitive.
pub proof fn lemma_location_order_transitive(a: Location, b: Location, c: Location)
    requires
        a.at_or_before(b),
        b.at_or_before(c),
    ensures
        a.at_or_before(c),
{
}

/// A span built from two positions is ordered and holds exactly those two,
/// in whichever order they were given.
pub proof fn lemma_span_between_ordered(a: Location, b: Location)
    ensures
        Span::between(a, b).is_ordered(),
        Span::between(a, b) == Span::between(b, a),
{
}

} // verus!
