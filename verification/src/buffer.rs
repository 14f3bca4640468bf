//! The buffer: a document, its caret, its highlight index and its view.

use vstd::prelude::*;
use crate::cursor::Cursor;
use crate::events::{
    ElementState, KeyboardInput, MouseButton, PhysicalPosition, PhysicalSize, VirtualKeyCode,
};
use crate::frame::{lemma_frame_rows_end, Frame, FrameRow};
use crate::highlight::{
    generate_highlight_info, highlights_match, lemma_pieces_at, lemma_tiles_within, pieces_at,
    pieces_text, pieces_view, runs_of, runs_view, tiles, Grammar, Piece, Run,
};
use crate::location::Location;
use crate::text::{
    insert_char, join_lines, lines_fit, lines_of, lines_view, merge_line, newline_free,
    remove_char, split_line, split_lines, string_of, string_of_range,
};
use crate::viewport::{
    column_at, column_for_x, correction_settles, digit_count, gutter_offset, gutter_width,
    max_scroll, row_at, row_screen_top, scroll_after, scroll_to_show, DIGIT_WIDTH, LINE_HEIGHT,
    MARGIN, NUMBER_GAP, PADDING,
};

verus! {

/// What a buffer stands for: its lines, one list of highlight runs per
/// line, the scroll position in pixels, the caret, whether a drag is under
/// way, and the size of the view.
pub struct BufferView {
    pub lines: Seq<Seq<char>>,
    pub highlights: Seq<Seq<Run>>,
    pub scroll: nat,
    pub cursor: Cursor,
    pub dragging: bool,
    pub size: PhysicalSize,
}

impl BufferView {
    /// The invariant of a buffer: the document has at least one line and
    /// no line holds a newline; the number of lines and the length of each
    /// fit in a `usize`; the caret stands in the document; the
    /// highlight index has one list of runs for each line, which tiles the
    /// line; and the view starts no further down than a line and a margin
    /// below the top of the last line.
    pub open spec fn wf(self) -> bool {
        &&& 1 <= self.lines.len() <= usize::MAX
        &&& newline_free(self.lines)
        &&& lines_fit(self.lines)
        &&& self.cursor.location.row < self.lines.len()
        &&& self.cursor.location.col <= self.lines[self.cursor.location.row as int].len()
        &&& highlights_match(self.highlights, self.lines)
        &&& self.scroll <= max_scroll(self.lines.len()) + LINE_HEIGHT
    }

    /// Whether two states differ in nothing but their highlight index.
    pub open spec fn agrees(self, other: BufferView) -> bool {
        &&& self.lines == other.lines
        &&& self.scroll == other.scroll
        &&& self.cursor == other.cursor
        &&& self.dragging == other.dragging
        &&& self.size == other.size
    }

    /// The line that the caret stands in.
    pub open spec fn current_line(self) -> Seq<char> {
        self.lines[self.cursor.location.row as int]
    }

    /// The state with the caret moved to a position. The column that
    /// vertical moves aim for follows the caret if `aim` is set.
    pub open spec fn caret_at(self, row: int, col: int, aim: bool) -> BufferView {
        BufferView {
            cursor: Cursor {
                location: Location { row: row as usize, col: col as usize },
                col_affinity: if aim {
                    col as usize
                } else {
                    self.cursor.col_affinity
                },
                selection_start: self.cursor.selection_start,
            },
            ..self
        }
    }

    /// The state with nothing selected.
    pub open spec fn deselected(self) -> BufferView {
        BufferView { cursor: Cursor { selection_start: None, ..self.cursor }, ..self }
    }

    /// The state after the view has been scrolled to show the caret's row.
    pub open spec fn shown(self) -> BufferView {
        BufferView {
            scroll: scroll_to_show(
                self.cursor.location.row as nat,
                self.scroll,
                self.size.height as nat,
            ),
            ..self
        }
    }

    /// The position under a pixel of the view: the end of the document if
    /// the pixel lies below the last line, else the row under the pixel and
    /// the column under it, or the end of that row if the pixel lies right
    /// of it.
    pub open spec fn hit(self, position: PhysicalPosition) -> Location {
        let row = row_at(position.y as int, self.scroll);
        if row >= self.lines.len() {
            Location {
                row: (self.lines.len() - 1) as usize,
                col: self.lines.last().len() as usize,
            }
        } else {
            let column = column_at(position.x as int, self.lines.len());
            Location {
                row: row as usize,
                col: if column <= self.lines[row as int].len() {
                    column as usize
                } else {
                    self.lines[row as int].len() as usize
                },
            }
        }
    }

    /// The state after a click or release of a mouse button: a press of
    /// the left button puts the caret under the pointer, drops the
    /// selection and starts a drag; its release ends the drag; other
    /// buttons do nothing.
    pub open spec fn after_mouse_input(
        self,
        button: MouseButton,
        state: ElementState,
        position: PhysicalPosition,
    ) -> BufferView {
        if button != MouseButton::Left {
            self
        } else if state == ElementState::Pressed {
            let at = self.hit(position);
            BufferView {
                cursor: Cursor { location: at, col_affinity: at.col, selection_start: None },
                dragging: true,
                ..self
            }
        } else {
            BufferView { dragging: false, ..self }
        }
    }

    /// The state after the pointer has moved: during a drag the caret
    /// follows the pointer, and the selection is anchored where the caret
    /// stood when the drag began to move; otherwise nothing changes.
    pub open spec fn after_mouse_move(self, position: PhysicalPosition) -> BufferView {
        if self.dragging {
            let at = self.hit(position);
            BufferView {
                cursor: Cursor {
                    location: at,
                    col_affinity: at.col,
                    selection_start: match self.cursor.selection_start {
                        Some(anchor) => Some(anchor),
                        None => Some(self.cursor.location),
                    },
                },
                ..self
            }
        } else {
            self
        }
    }

    /// The state after an arrow key, before the view follows the caret.
    /// Up and down move by one row, stop at the first and last row, and go
    /// to the aimed-for column or the end of the line if that is shorter.
    /// Left and right move by one column and step over line ends. All four
    /// drop the selection. Other keys change nothing.
    pub open spec fn after_key(self, key: VirtualKeyCode) -> BufferView {
        let row = self.cursor.location.row as int;
        let col = self.cursor.location.col as int;
        match key {
            VirtualKeyCode::Up => {
                let target = if row == 0 {
                    0
                } else {
                    row - 1
                };
                self.deselected().caret_at(target, self.aimed_column(target), false)
            },
            VirtualKeyCode::Down => {
                let target = if row + 1 < self.lines.len() {
                    row + 1
                } else {
                    row
                };
                self.deselected().caret_at(target, self.aimed_column(target), false)
            },
            VirtualKeyCode::Left => {
                if col > 0 {
                    self.deselected().caret_at(row, col - 1, true)
                } else if row > 0 {
                    self.deselected().caret_at(row - 1, self.lines[row - 1].len() as int, true)
                } else {
                    self.deselected()
                }
            },
            VirtualKeyCode::Right => {
                if col < self.current_line().len() {
                    self.deselected().caret_at(row, col + 1, true)
                } else if row + 1 < self.lines.len() {
                    self.deselected().caret_at(row + 1, 0, true)
                } else {
                    self.deselected()
                }
            },
            VirtualKeyCode::Other => self,
        }
    }

    /// The column that a vertical move to `row` goes to.
    pub open spec fn aimed_column(self, row: int) -> int {
        if self.lines[row].len() <= self.cursor.col_affinity {
            self.lines[row].len() as int
        } else {
            self.cursor.col_affinity as int
        }
    }

    /// The state after a keyboard event: a key that goes down and has a
    /// meaning acts as `after_key` says, and the view then follows the
    /// caret; a key that comes up or has no meaning changes nothing.
    pub open spec fn after_keyboard_input(self, input: KeyboardInput) -> BufferView {
        match input.virtual_keycode {
            Some(key) => if input.state == ElementState::Released {
                self
            } else {
                self.after_key(key).shown()
            },
            None => self,
        }
    }

    /// The document and the caret after a character has been typed, before
    /// the highlight index is rebuilt and the view follows the caret.
    ///
    /// A newline or carriage return cuts the line at the caret and moves
    /// the caret to the start of the new line. Backspace takes out the
    /// character before the caret, or joins the line to the one above it
    /// when the caret stands at its start; at the start of the document it
    /// does nothing. Delete takes out the character at the caret if there
    /// is one. A tab does nothing. Any other character is put in at the
    /// caret, which moves past it.
    pub open spec fn after_char(self, input: char) -> BufferView {
        let row = self.cursor.location.row as int;
        let col = self.cursor.location.col as int;
        if input == '\n' || input == '\r' {
            BufferView { lines: split_line(self.lines, row, col), ..self }.caret_at(
                row + 1,
                0,
                true,
            )
        } else if input == '\u{8}' {
            if col > 0 {
                BufferView { lines: remove_char(self.lines, row, col - 1), ..self }.caret_at(
                    row,
                    col - 1,
                    true,
                )
            } else if row > 0 {
                BufferView { lines: merge_line(self.lines, row), ..self }.caret_at(
                    row - 1,
                    self.lines[row - 1].len() as int,
                    true,
                )
            } else {
                self
            }
        } else if input == '\u{7f}' {
            if col < self.current_line().len() {
                BufferView { lines: remove_char(self.lines, row, col), ..self }
            } else {
                self
            }
        } else if input == '\t' {
            self
        } else {
            BufferView { lines: insert_char(self.lines, row, col, input), ..self }.caret_at(
                row,
                col + 1,
                false,
            )
        }
    }
}

/// Every state that keeps the invariant has a document of at least one
/// line and a highlight index with one list of runs for each line.
pub proof fn lemma_document_never_empty(view: BufferView)
    requires
        view.wf(),
    ensures
        view.lines.len() >= 1,
        view.highlights.len() == view.lines.len(),
{
}

/// Saving a document and loading what was saved gives the same lines back.
pub proof fn lemma_save_load_round_trip(view: BufferView)
    requires
        view.wf(),
    ensures
        split_lines(join_lines(view.lines)) == view.lines,
{
    crate::text::lemma_split_join(view.lines);
}

/// Scrolling the view to the caret twice leaves it where scrolling once
/// put it, whenever one correction settles for the caret's row.
pub proof fn lemma_shown_idempotent(view: BufferView)
    requires
        correction_settles(
            view.cursor.location.row as nat,
            view.scroll,
            view.size.height as nat,
        ),
    ensures
        view.shown().shown() == view.shown(),
{
    crate::viewport::lemma_scroll_to_show_idempotent(
        view.cursor.location.row as nat,
        view.scroll,
        view.size.height as nat,
    );
}

/// A text buffer with one document.
pub struct Buffer {
    lines: Vec<Vec<char>>,
    highlight_info: Vec<Vec<Run>>,
    scroll: u128,
    cursor: Cursor,
    dragging: bool,
    size: PhysicalSize,
    grammar: Grammar,
}

impl View for Buffer {
    type V = BufferView;

    closed spec fn view(&self) -> BufferView {
        BufferView {
            lines: lines_view(self.lines@),
            highlights: runs_view(self.highlight_info@),
            scroll: self.scroll as nat,
            cursor: self.cursor,
            dragging: self.dragging,
            size: self.size,
        }
    }
}

impl Buffer {
    /// The grammar that the buffer highlights its document with.
    pub closed spec fn grammar(&self) -> Grammar {
        self.grammar
    }

    /// The invariant that every buffer keeps: that of its state, that of
    /// its grammar, and that the highlight index is what the grammar gives
    /// for the document.
    pub open spec fn wf(&self) -> bool {
        &&& self@.wf()
        &&& self.grammar().wf()
        &&& self@.highlights == self.grammar().document_runs(self@.lines)
    }

    /// A buffer over the given text, highlighted with the given grammar:
    /// the caret at the start, nothing selected, the view at the top.
    pub fn with_grammar(size: PhysicalSize, text: &str, grammar: Grammar) -> (buffer: Buffer)
        requires
            grammar.wf(),
        ensures
            buffer.wf(),
            buffer.grammar() == grammar,
            buffer@.lines == split_lines(text@),
            buffer@.cursor == (Cursor {
                location: Location { row: 0, col: 0 },
                col_affinity: 0,
                selection_start: None,
            }),
            buffer@.scroll == 0,
            buffer@.size == size,
            !buffer@.dragging,
    {
        let mut lines = lines_of(text);
        if lines.is_empty() {
            lines.push(Vec::new());
        }
        let mut highlight_info: Vec<Vec<Run>> = Vec::new();
        generate_highlight_info(&lines, &mut highlight_info, &grammar);
        proof {
            crate::text::lemma_split_lines_shape(text@);
            crate::text::lemma_stored_lines_fit(lines);
        }
        Buffer {
            highlight_info,
            scroll: 0,
            lines,
            cursor: Cursor::new(),
            size,
            grammar,
            dragging: false,
        }
    }

    /// A buffer over the given text, highlighted as Rust source in the
    /// dark Solarized theme: the caret at the start, nothing selected, the
    /// view at the top.
    pub fn new(size: PhysicalSize, text: &str) -> (buffer: Buffer)
        ensures
            buffer.wf(),
            buffer@.lines == split_lines(text@),
            buffer@.cursor == (Cursor {
                location: Location { row: 0, col: 0 },
                col_affinity: 0,
                selection_start: None,
            }),
            buffer@.scroll == 0,
            buffer@.size == size,
            !buffer@.dragging,
            buffer.grammar().extension() == "rs"@,
            buffer.grammar().theme_name() == "Solarized (dark)"@,
    {
        Buffer::with_grammar(size, text, Grammar::load())
    }

    /// The text of the document: its lines with a newline between each two.
    pub fn save(&self) -> (text: String)
        requires
            self.wf(),
        ensures
            text@ == join_lines(self@.lines),
    {
        let mut text = string_of(&self.lines[0]);
        let mut i: usize = 1;
        proof {
            assert(self@.lines.take(1) =~= seq![self@.lines[0]]);
        }
        while i < self.lines.len()
            invariant
                1 <= i <= self.lines.len(),
                text@ == join_lines(self@.lines.take(i as int)),
            decreases self.lines.len() - i,
        {
            let line = string_of(&self.lines[i]);
            let ghost before = text@;
            text.append("\n");
            text.append(line.as_str());
            proof {
                reveal_strlit("\n");
                let part = self@.lines.take(i + 1);
                assert(part.drop_last() =~= self@.lines.take(i as int));
                assert(part.last() == self@.lines[i as int]);
                assert("\n"@ =~= seq!['\n']);
                assert(text@ =~= before + seq!['\n'] + line@);
            }
            i += 1;
        }
        proof {
            assert(self@.lines.take(self.lines.len() as int) =~= self@.lines);
        }
        text
    }

    /// Takes note of a new size of the view.
    pub fn update_size(&mut self, size: PhysicalSize)
        requires
            old(self).wf(),
        ensures
            final(self)@ == (BufferView { size, ..old(self)@ }),
            final(self).wf(),
            final(self).grammar() == old(self).grammar(),
    {
        self.size = size;
    }

    /// The caret.
    pub fn cursor(&self) -> (cursor: Cursor)
        ensures
            cursor == self@.cursor,
    {
        self.cursor
    }

    /// The scroll position: how far the top of the view lies below the top
    /// of the document, in pixels.
    pub fn scroll_offset(&self) -> (scroll: u128)
        ensures
            scroll == self@.scroll,
    {
        self.scroll
    }

    /// The size of the view.
    pub fn size(&self) -> (size: PhysicalSize)
        ensures
            size == self@.size,
    {
        self.size
    }

    /// Whether a drag with the mouse is under way.
    pub fn is_dragging(&self) -> (dragging: bool)
        ensures
            dragging == self@.dragging,
    {
        self.dragging
    }

    /// The number of lines in the document.
    pub fn line_count(&self) -> (count: usize)
        ensures
            count == self@.lines.len(),
    {
        self.lines.len()
    }

    /// The text of a line, `None` past the end of the document.
    pub fn line(&self, row: usize) -> (line: Option<String>)
        ensures
            row < self@.lines.len() ==> (line matches Some(text) && text@
                == self@.lines[row as int]),
            row >= self@.lines.len() ==> line.is_none(),
    {
        if row < self.lines.len() {
            Some(string_of(&self.lines[row]))
        } else {
            None
        }
    }

    /// The highlight runs of a line, `None` past the end of the index.
    pub fn highlights(&self, row: usize) -> (runs: Option<&Vec<Run>>)
        ensures
            row < self@.highlights.len() ==> (runs matches Some(list) && list@
                == self@.highlights[row as int]),
            row >= self@.highlights.len() ==> runs.is_none(),
    {
        if row < self.highlight_info.len() {
            Some(&self.highlight_info[row])
        } else {
            None
        }
    }

    /// The text of a line cut into the coloured pieces of its highlight
    /// runs, `None` past the end of the document.
    pub fn pieces(&self, row: usize) -> (pieces: Option<Vec<Piece>>)
        requires
            self.wf(),
        ensures
            row >= self@.lines.len() ==> pieces.is_none(),
            row < self@.lines.len() ==> (pieces matches Some(list) && {
                &&& pieces_view(list@) == pieces_at(
                    self@.lines[row as int],
                    self@.highlights[row as int],
                )
                &&& pieces_text(pieces_view(list@)) == self@.lines[row as int]
                &&& runs_of(pieces_view(list@)) == self@.highlights[row as int]
            }),
    {
        if row >= self.lines.len() {
            return None;
        }
        let line = &self.lines[row];
        let runs = &self.highlight_info[row];
        proof {
            assert(tiles(self@.highlights[row as int], self@.lines[row as int].len()));
            lemma_pieces_at(line@, runs@);
        }
        let mut list: Vec<Piece> = Vec::new();
        let mut i: usize = 0;
        while i < runs.len()
            invariant
                0 <= i <= runs.len(),
                tiles(runs@, line@.len()),
                pieces_view(list@) == pieces_at(line@, runs@).take(i as int),
            decreases runs.len() - i,
        {
            let run = runs[i];
            proof {
                lemma_tiles_within(runs@, line@.len(), i as int);
            }
            let text = string_of_range(line, run.start, run.end);
            let ghost before = pieces_view(list@);
            let ghost piece = (line@.subrange(run.start as int, run.end as int), run.color);
            list.push(Piece { text, color: run.color });
            proof {
                assert(pieces_view(list@) =~= before.push(piece));
                assert(pieces_at(line@, runs@)[i as int] == piece);
                assert(pieces_at(line@, runs@).take(i + 1) =~= before.push(piece));
            }
            i += 1;
        }
        proof {
            assert(pieces_at(line@, runs@).take(runs@.len() as int) =~= pieces_at(line@, runs@));
        }
        Some(list)
    }

    /// Scrolls the view, if the caret's row is not wholly in it, just far
    /// enough to show the row.
    pub fn ensure_cursor_in_view(&mut self)
        requires
            old(self).wf(),
        ensures
            final(self)@ == old(self)@.shown(),
            final(self).wf(),
            final(self).grammar() == old(self).grammar(),
    {
        self.follow_cursor();
    }

    /// Scrolls the view to the caret's row, whatever the highlight index
    /// holds.
    fn follow_cursor(&mut self)
        requires
            old(self).cursor.location.row < old(self).lines@.len(),
            old(self).scroll <= 0xffff_ffff_ffff_ffff_ffff,
        ensures
            final(self)@ == old(self)@.shown(),
            final(self).lines == old(self).lines,
            final(self).highlight_info == old(self).highlight_info,
            final(self).grammar == old(self).grammar,
            final(self)@.scroll <= max_scroll(final(self)@.lines.len()) + LINE_HEIGHT,
    {
        let cursor_y: u128 = self.cursor.location.row as u128 * LINE_HEIGHT as u128;
        let height: u128 = self.size.height as u128;
        let bottom: u128 = self.scroll + height;
        if cursor_y < self.scroll {
            self.scroll = cursor_y;
        } else if cursor_y + LINE_HEIGHT as u128 > bottom {
            self.scroll = cursor_y + LINE_HEIGHT as u128 + MARGIN as u128 - height;
        }
    }

    /// Scrolls the view by `delta` pixels, down if positive, and stops at
    /// the top of the document and at its last line.
    pub fn scroll(&mut self, delta: i64)
        requires
            old(self).wf(),
        ensures
            final(self)@ == (BufferView {
                scroll: scroll_after(old(self)@.scroll, delta as int, old(self)@.lines.len()),
                ..old(self)@
            }),
            final(self).wf(),
            final(self).grammar() == old(self).grammar(),
    {
        let max_scroll: u128 = if self.lines.is_empty() {
            0
        } else {
            (self.lines.len() - 1) as u128 * LINE_HEIGHT as u128 + MARGIN as u128
        };
        let target: i128 = self.scroll as i128 + delta as i128;
        self.scroll = if target < 0 {
            0
        } else if target as u128 > max_scroll {
            max_scroll
        } else {
            target as u128
        };
    }

    /// Finds the position in the document under a pixel of the view.
    pub fn hit_test(&self, position: PhysicalPosition) -> (location: Location)
        requires
            self.wf(),
        ensures
            location == self@.hit(position),
            location.row < self@.lines.len(),
            location.col <= self@.lines[location.row as int].len(),
    {
        let y: i128 = position.y as i128 + self.scroll as i128;
        let line: u128 = if y < 0 {
            0
        } else {
            (y / LINE_HEIGHT as i128) as u128
        };
        if line >= self.lines.len() as u128 {
            let row = self.lines.len() - 1;
            let col = self.lines[row].len();
            Location { row, col }
        } else {
            let row = line as usize;
            let col = column_for_x(position.x, self.lines.len());
            let length = self.lines[row].len();
            let col = if col <= length {
                col
            } else {
                length
            };
            Location { row, col }
        }
    }

    /// Reacts to a mouse button going down or coming up at a pixel of the
    /// view.
    pub fn handle_mouse_input(
        &mut self,
        button: MouseButton,
        state: ElementState,
        position: PhysicalPosition,
    )
        requires
            old(self).wf(),
        ensures
            final(self)@ == old(self)@.after_mouse_input(button, state, position),
            final(self).wf(),
            final(self).grammar() == old(self).grammar(),
    {
        match button {
            MouseButton::Left => {
                match state {
                    ElementState::Pressed => {
                        self.cursor.selection_start = None;
                        let location = self.hit_test(position);
                        self.cursor.set_row(location.row);
                        self.cursor.set_col_with_affinity(location.col);
                        self.dragging = true;
                    },
                    ElementState::Released => {
                        self.dragging = false;
                    },
                }
            },
            _ => {},
        }
    }

    /// Reacts to the pointer moving to a pixel of the view.
    pub fn handle_mouse_move(&mut self, position: PhysicalPosition)
        requires
            old(self).wf(),
        ensures
            final(self)@ == old(self)@.after_mouse_move(position),
            final(self).wf(),
            final(self).grammar() == old(self).grammar(),
    {
        if self.dragging {
            if self.cursor.selection_start.is_none() {
                self.cursor.selection_start = Some(self.cursor.location);
            }
            let location = self.hit_test(position);
            self.cursor.set_row(location.row);
            self.cursor.set_col_with_affinity(location.col);
        }
    }

    /// Reacts to a key going down or coming up: the arrow keys move the
    /// caret, and the view follows it.
    pub fn handle_keyboard_input(&mut self, input: KeyboardInput)
        requires
            old(self).wf(),
        ensures
            final(self)@ == old(self)@.after_keyboard_input(input),
            final(self).wf(),
            final(self).grammar() == old(self).grammar(),
    {
        let keycode = match input.virtual_keycode {
            Some(keycode) => keycode,
            None => return,
        };
        match input.state {
            ElementState::Released => return,
            ElementState::Pressed => {},
        }
        let row = self.cursor.location.row;
        let col = self.cursor.location.col;
        match keycode {
            VirtualKeyCode::Up => {
                self.cursor.selection_start = None;
                let row = if row == 0 {
                    0
                } else {
                    row - 1
                };
                let length = self.lines[row].len();
                let col = if length <= self.cursor.col_affinity {
                    length
                } else {
                    self.cursor.col_affinity
                };
                self.cursor.set_row(row);
                self.cursor.set_col(col);
            },
            VirtualKeyCode::Down => {
                self.cursor.selection_start = None;
                let row = if row + 1 < self.lines.len() {
                    row + 1
                } else {
                    row
                };
                let length = self.lines[row].len();
                let col = if length <= self.cursor.col_affinity {
                    length
                } else {
                    self.cursor.col_affinity
                };
                self.cursor.set_row(row);
                self.cursor.set_col(col);
            },
            VirtualKeyCode::Left => {
                self.cursor.selection_start = None;
                if col == 0 {
                    if row > 0 {
                        self.cursor.set_row(row - 1);
                        self.cursor.set_col_with_affinity(self.lines[row - 1].len());
                    }
                } else {
                    self.cursor.set_col_with_affinity(col - 1);
                }
            },
            VirtualKeyCode::Right => {
                self.cursor.selection_start = None;
                if col >= self.lines[row].len() {
                    if row < self.lines.len() - 1 {
                        self.cursor.set_row(row + 1);
                        self.cursor.set_col_with_affinity(0);
                    }
                } else {
                    self.cursor.set_col_with_affinity(col + 1);
                }
            },
            VirtualKeyCode::Other => {},
        }
        self.follow_cursor();
    }
    /// Reacts to a typed character: edits the document at the caret,
    /// rebuilds the highlight index, and lets the view follow the caret.
    pub fn handle_char_input(&mut self, input: char)
        requires
            old(self).wf(),
        ensures
            final(self)@.agrees(old(self)@.after_char(input).shown()),
            final(self).wf(),
            final(self).grammar() == old(self).grammar(),
            final(self)@.lines.len() >= 1,
    {
        let row = self.cursor.location.row;
        let col = self.cursor.location.col;
        let ghost before = self@.lines;
        if input == '\n' || input == '\r' {
            let new_line = self.lines[row].split_off(col);
            self.cursor.set_row(row + 1);
            self.lines.insert(row + 1, new_line);
            self.cursor.set_col_with_affinity(0);
            proof {
                crate::text::lemma_split_line(before, row as int, col as int);
                assert(self@.lines =~= split_line(before, row as int, col as int));
            }
        } else if input == '\u{8}' {
            if col > 0 {
                self.lines[row].remove(col - 1);
                self.cursor.set_col_with_affinity(col - 1);
                proof {
                    crate::text::lemma_remove_char(before, row as int, col - 1);
                    assert(self@.lines =~= remove_char(before, row as int, col - 1));
                }
            } else if row > 0 {
                let mut remaining = self.lines.remove(row);
                self.cursor.set_row(row - 1);
                self.cursor.set_col_with_affinity(self.lines[row - 1].len());
                self.lines[row - 1].append(&mut remaining);
                proof {
                    crate::text::lemma_merge_line(before, row as int);
                    assert(self@.lines =~= merge_line(before, row as int));
                }
            }
        } else if input == '\u{7f}' {
            if self.lines[row].len() > col {
                self.lines[row].remove(col);
                proof {
                    crate::text::lemma_remove_char(before, row as int, col as int);
                    assert(self@.lines =~= remove_char(before, row as int, col as int));
                }
            }
        } else if input == '\t' {
        } else {
            self.lines[row].insert(col, input);
            assert(col < self.lines[row as int].len());
            self.cursor.set_col(col + 1);
            proof {
                crate::text::lemma_insert_char(before, row as int, col as int, input);
                assert(self@.lines =~= insert_char(before, row as int, col as int, input));
            }
        }
        generate_highlight_info(&self.lines, &mut self.highlight_info, &self.grammar);
        proof {
            crate::text::lemma_stored_lines_fit(self.lines);
        }
        self.follow_cursor();
    }
    /// Lays out a frame for a view of the given size: the extent of the
    /// gutter and, from top to bottom, the rows of the document that are
    /// in view, each with its place on the screen, its selected columns
    /// and the caret's column if the caret stands in it.
    pub fn draw(&self, size: PhysicalSize) -> (frame: Frame)
        requires
            self.wf(),
        ensures
            frame.gutter_width == gutter_width(self@.lines.len()),
            frame.text_left == gutter_offset(self@.lines.len()),
            frame.rows@ == self@.frame_rows(size.height as nat, self@.lines.len()),
    {
        let digit_count = digit_count(self.lines.len());
        let selection_span = self.cursor.selection_span();
        let height: i128 = size.height as i128;
        let mut rows: Vec<FrameRow> = Vec::new();
        let mut y: i128 = MARGIN as i128 - self.scroll as i128;
        let mut index: usize = 0;
        while index < self.lines.len() && y <= height
            invariant
                self.wf(),
                index <= self.lines.len(),
                height == size.height,
                selection_span == self@.cursor.selection(),
                y == row_screen_top(index as nat, self@.scroll),
                rows@ == self@.frame_rows(size.height as nat, index as nat),
            decreases self.lines.len() - index,
        {
            if y >= -(LINE_HEIGHT as i128) {
                let length = self.lines[index].len();
                let selection = match selection_span {
                    Some(span) => span.get_char_indices_for_line(index, length),
                    None => None,
                };
                let caret = if index == self.cursor.location.row {
                    Some(self.cursor.location.col)
                } else {
                    None
                };
                rows.push(FrameRow { row: index, y: y as i64, selection, caret });
            }
            y = y + LINE_HEIGHT as i128;
            index = index + 1;
        }
        proof {
            if index < self.lines.len() {
                lemma_frame_rows_end(
                    self@,
                    size.height as nat,
                    index as nat,
                    self@.lines.len(),
                );
            }
        }
        Frame {
            gutter_width: digit_count * DIGIT_WIDTH + 2 * PADDING,
            text_left: PADDING + NUMBER_GAP + digit_count * DIGIT_WIDTH,
            rows,
        }
    }
}

} // verus!
