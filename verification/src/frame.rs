//! What a draw pass shows of a buffer: the rows in view, where they stand
//! on the screen, and the columns of each that are selected or hold the
//! caret.
//!
//! Rows and columns only: how wide the characters of a line are is for the
//! renderer to say.

use vstd::prelude::*;
use crate::buffer::BufferView;
use crate::viewport::{row_drawn, row_screen_top};

verus! {

/// One row of the document as it is drawn.
#[derive(Debug, Clone, Copy, PartialEq, Eq)]
pub struct FrameRow {
    /// The row of the document.
    pub row: usize,
    /// The top of the row, in pixels below the top of the view.
    pub y: i64,
    /// The selected columns of the row, start included and end excluded.
    pub selection: Option<(usize, usize)>,
    /// The column of the caret, if it stands in this row.
    pub caret: Option<usize>,
}

/// The rows to draw, from top to bottom, and the extent of the gutter.
#[derive(Debug)]
pub struct Frame {
    /// The width of the strip behind the line numbers.
    pub gutter_width: u32,
    /// The left edge of the text.
    pub text_left: u32,
    pub rows: Vec<FrameRow>,
}

impl BufferView {
    /// How the given row of the document is drawn.
    pub open spec fn frame_row(self, row: int) -> FrameRow {
        FrameRow {
            row: row as usize,
            y: row_screen_top(row as nat, self.scroll) as i64,
            selection: match self.cursor.selection() {
                Some(span) => span.columns_on(row as usize, self.lines[row].len() as usize),
                None => None,
            },
            caret: if row == self.cursor.location.row {
                Some(self.cursor.location.col)
            } else {
                None
            },
        }
    }

    /// The rows that are drawn among the first `count` rows of the
    /// document, in a view of the given height, from top to bottom.
    pub open spec fn frame_rows(self, height: nat, count: nat) -> Seq<FrameRow>
        decreases count,
    {
        if count == 0 {
            Seq::<FrameRow>::empty()
        } else {
            let above = self.frame_rows(height, (count - 1) as nat);
            if row_drawn((count - 1) as nat, self.scroll, height) {
                above.push(self.frame_row(count - 1))
            } else {
                above
            }
        }
    }
}

/// Whether a frame has an entry for the given row of the document.
pub open spec fn shows(rows: Seq<FrameRow>, row: nat) -> bool {
    exists|k: int| 0 <= k < rows.len() && (#[trigger] rows[k]).row == row
}

/// Once a row starts below the view, no later row is drawn.
pub proof fn lemma_frame_rows_end(
    view: BufferView,
    height: nat,
    reached: nat,
    count: nat,
)
    requires
        reached <= count,
        row_screen_top(reached, view.scroll) > height,
    ensures
        view.frame_rows(height, count) == view.frame_rows(height, reached),
    decreases count,
{
    if reached < count {
        lemma_frame_rows_end(view, height, reached, (count - 1) as nat);
    }
}

/// The frame holds exactly the rows that are drawn: each of its entries is
/// a drawn row of the document, the entries go down the document, and every
/// drawn row among the first `count` has an entry.
pub proof fn lemma_frame_rows_exact(view: BufferView, height: nat, count: nat)
    requires
        count <= usize::MAX,
    ensures
        forall|k: int|
            0 <= k < view.frame_rows(height, count).len() ==> {
                let entry = #[trigger] view.frame_rows(height, count)[k];
                &&& entry.row < count
                &&& row_drawn(entry.row as nat, view.scroll, height)
                &&& entry == view.frame_row(entry.row as int)
            },
        forall|j: int, k: int|
            0 <= j < k < view.frame_rows(height, count).len() ==> (#[trigger] view.frame_rows(
                height,
                count,
            )[j]).row < (#[trigger] view.frame_rows(height, count)[k]).row,
        forall|row: nat|
            row < count && #[trigger] row_drawn(row, view.scroll, height) ==> shows(
                view.frame_rows(height, count),
                row,
            ),
    decreases count,
{
    if count > 0 {
        let above = view.frame_rows(height, (count - 1) as nat);
        let all = view.frame_rows(height, count);
        lemma_frame_rows_exact(view, height, (count - 1) as nat);
        assert forall|row: nat|
            row < count && #[trigger] row_drawn(row, view.scroll, height) implies shows(
            all,
            row,
        ) by {
            if row < count - 1 {
                assert(shows(above, row));
                let k = choose|k: int| 0 <= k < above.len() && (#[trigger] above[k]).row == row;
                assert(all[k] == above[k]);
            } else {
                assert(all[all.len() - 1].row == row);
            }
        }
        assert forall|j: int, k: int| 0 <= j < k < all.len() implies (#[trigger] all[j]).row < (
        #[trigger] all[k]).row by {
            if k < above.len() {
                assert(all[j] == above[j] && all[k] == above[k]);
            } else {
                assert(all[j] == above[j]);
            }
        }
    }
}

} // verus!
