//! The geometry of the view: scroll positions, the gutter, and the mapping
//! from pixels to rows and columns. All lengths are whole pixels.

use vstd::prelude::*;

verus! {

/// The height of a line of text.
pub const LINE_HEIGHT: u32 = 40;

/// The gap above the first line, and what is kept free below the caret's
/// line when the view scrolls down to it.
pub const MARGIN: u32 = 5;

/// The gap to the left of the line numbers.
pub const PADDING: u32 = 10;

/// The gap between the line numbers and the text.
pub const NUMBER_GAP: u32 = 30;

/// The width that the gutter keeps for each digit of a line number.
pub const DIGIT_WIDTH: u32 = 20;

/// The width that hit-testing takes every character to have, in millionths
/// of a pixel.
pub const ADVANCE_MICROS: u64 = 19_065_777;

/// How many decimal digits a number has.
pub open spec fn digits(n: nat) -> nat
    decreases n,
{
    if n < 10 {
        1
    } else {
        1 + digits(n / 10)
    }
}

/// Ten to the power of `k`.
pub open spec fn pow10(k: nat) -> nat
    decreases k,
{
    if k == 0 {
        1
    } else {
        10 * pow10((k - 1) as nat)
    }
}

/// The left edge of the text: the padding, the digits of the largest line
/// number, and the gap behind them.
pub open spec fn gutter_offset(line_count: nat) -> nat {
    PADDING as nat + NUMBER_GAP as nat + digits(line_count) * DIGIT_WIDTH as nat
}

/// The width of the shaded strip that holds the line numbers.
pub open spec fn gutter_width(line_count: nat) -> nat {
    digits(line_count) * DIGIT_WIDTH as nat + 2 * PADDING as nat
}

/// The furthest that scrolling by hand can go: the last line at the top of
/// the view, under the margin. Zero for a document without lines.
pub open spec fn max_scroll(line_count: nat) -> nat {
    if line_count == 0 {
        0
    } else {
        ((line_count - 1) * LINE_HEIGHT as nat + MARGIN as nat) as nat
    }
}

/// The scroll position after a scroll by `delta`, kept between 0 and
/// `max_scroll`.
pub open spec fn scroll_after(scroll: nat, delta: int, line_count: nat) -> nat {
    let target = scroll + delta;
    if target < 0 {
        0
    } else if target > max_scroll(line_count) {
        max_scroll(line_count)
    } else {
        target as nat
    }
}

/// The distance from the top of the document to the top of a row.
pub open spec fn row_top(row: nat) -> nat {
    row * LINE_HEIGHT as nat
}

/// Whether a row lies wholly within a view of the given height.
pub open spec fn row_in_view(row: nat, scroll: nat, height: nat) -> bool {
    scroll <= row_top(row) && row_top(row) + LINE_HEIGHT as nat <= scroll + height
}

/// The scroll position that brings a row into view: the row's top if the
/// row starts above the view, just far enough down to show the row and the
/// margin below it if the row ends below the view, and the same position
/// otherwise.
pub open spec fn scroll_to_show(row: nat, scroll: nat, height: nat) -> nat {
    if row_top(row) < scroll {
        row_top(row)
    } else if row_top(row) + LINE_HEIGHT as nat > scroll + height {
        (row_top(row) + LINE_HEIGHT as nat + MARGIN as nat - height) as nat
    } else {
        scroll
    }
}

/// Whether one correction of the scroll position is enough for the row: it
/// is unless the view is too low for what the correction wants to show,
/// which is a line when scrolling up and a line with its margin when
/// scrolling down.
pub open spec fn correction_settles(row: nat, scroll: nat, height: nat) -> bool {
    if row_top(row) < scroll {
        height >= LINE_HEIGHT as nat
    } else if row_top(row) + LINE_HEIGHT as nat > scroll + height {
        height >= LINE_HEIGHT as nat + MARGIN as nat
    } else {
        true
    }
}

/// The row under a pixel: the distance from the top of the document in
/// line heights, rounded down, and row 0 above the document.
pub open spec fn row_at(y: int, scroll: nat) -> nat {
    if y + scroll < 0 {
        0
    } else {
        ((y + scroll) / LINE_HEIGHT as int) as nat
    }
}

/// The column under a pixel: the distance from the left edge of the text in
/// character widths, rounded to the nearest, and column 0 left of the text.
pub open spec fn column_at(x: int, line_count: nat) -> nat {
    let distance = if x < gutter_offset(line_count) {
        0
    } else {
        x - gutter_offset(line_count)
    };
    ((2_000_000 * distance + ADVANCE_MICROS as int) / (2 * ADVANCE_MICROS as int)) as nat
}

/// The top of a row on the screen: below the margin, moved up by the
/// scroll position.
pub open spec fn row_screen_top(row: nat, scroll: nat) -> int {
    MARGIN as int - scroll + row_top(row)
}

/// Whether a row is drawn: it is unless it ends above the view or starts
/// below it.
pub open spec fn row_drawn(row: nat, scroll: nat, height: nat) -> bool {
    -(LINE_HEIGHT as int) <= row_screen_top(row, scroll) <= height
}

/// A number below ten to the `k` has at most `k` digits.
pub proof fn lemma_digits_bound(n: nat, k: nat)
    requires
        k >= 1,
        n < pow10(k),
    ensures
        1 <= digits(n) <= k,
    decreases k,
{
    if n >= 10 {
        assert(pow10(1) == 10) by {
            reveal_with_fuel(pow10, 2);
        }
        assert(k >= 2);
        assert(pow10(k) == 10 * pow10((k - 1) as nat));
        lemma_digits_bound(n / 10, (k - 1) as nat);
    }
}

/// No `usize` has more than twenty digits.
pub proof fn lemma_digits_of_usize(n: usize)
    ensures
        1 <= digits(n as nat) <= 20,
        gutter_offset(n as nat) <= 440,
        gutter_width(n as nat) <= 420,
{
    assert(pow10(20) == 100_000_000_000_000_000_000) by {
        reveal_with_fuel(pow10, 21);
    }
    assert(n <= 0xffff_ffff_ffff_ffff);
    lemma_digits_bound(n as nat, 20);
}

/// Scrolling by hand never leaves the range from 0 to `max_scroll`.
pub proof fn lemma_scroll_after_in_range(scroll: nat, delta: int, line_count: nat)
    ensures
        scroll_after(scroll, delta, line_count) <= max_scroll(line_count),
        0 <= scroll + delta <= max_scroll(line_count) ==> scroll_after(scroll, delta, line_count)
            == scroll + delta,
{
}

/// After the correction the row starts at or below the top of the view and
/// the view is at most a line and a margin above the row's top.
pub proof fn lemma_scroll_to_show_reach(row: nat, scroll: nat, height: nat)
    ensures
        scroll_to_show(row, scroll, height) <= row_top(row) + LINE_HEIGHT as nat + MARGIN as nat,
        row_in_view(row, scroll, height) ==> scroll_to_show(row, scroll, height) == scroll,
        correction_settles(row, scroll, height) ==> row_in_view(
            row,
            scroll_to_show(row, scroll, height),
            height,
        ),
{
}

/// Correcting the scroll position twice gives what correcting it once
/// gives, whenever one correction settles.
pub proof fn lemma_scroll_to_show_idempotent(row: nat, scroll: nat, height: nat)
    requires
        correction_settles(row, scroll, height),
    ensures
        scroll_to_show(row, scroll_to_show(row, scroll, height), height) == scroll_to_show(
            row,
            scroll,
            height,
        ),
{
}

/// Where one correction does not settle, a second one moves the view
/// again.
pub proof fn lemma_scroll_to_show_unsettled(row: nat, scroll: nat, height: nat)
    requires
        !correction_settles(row, scroll, height),
    ensures
        scroll_to_show(row, scroll_to_show(row, scroll, height), height) != scroll_to_show(
            row,
            scroll,
            height,
        ),
{
}

/// Counts the decimal digits of a number.
pub fn digit_count(n: usize) -> (count: u32)
    ensures
        count == digits(n as nat),
        1 <= count <= 20,
{
    let mut count: u32 = 1;
    let mut rest: usize = n;
    proof {
        lemma_digits_of_usize(n);
    }
    while rest >= 10
        invariant
            1 <= count,
            count - 1 + digits(rest as nat) == digits(n as nat),
            digits(n as nat) <= 20,
        decreases rest,
    {
        rest = rest / 10;
        count = count + 1;
    }
    count
}

/// Finds the column under the pixel column `x` in a document of
/// `line_count` lines.
pub fn column_for_x(x: i32, line_count: usize) -> (column: usize)
    ensures
        column == column_at(x as int, line_count as nat),
{
    let digit_count = digit_count(line_count);
    let offset: i64 = (PADDING + NUMBER_GAP + digit_count * DIGIT_WIDTH) as i64;
    let distance: i64 = if (x as i64) < offset {
        0
    } else {
        x as i64 - offset
    };
    let doubled: u64 = 2_000_000 * (distance as u64) + ADVANCE_MICROS;
    let column: u64 = doubled / (2 * ADVANCE_MICROS);
    assert(column <= 0xffff_ffff);
    column as usize
}

} // verus!
