use text_buffer::buffer::Buffer;
use text_buffer::events::{ElementState, KeyboardInput, MouseButton, PhysicalPosition, PhysicalSize, VirtualKeyCode};
use text_buffer::frame::FrameRow;

fn size(height: u32) -> PhysicalSize {
    PhysicalSize { width: 800, height }
}

fn open(text: &str) -> Buffer {
    Buffer::new(size(600), text)
}

fn numbered(count: usize) -> String {
    let rows: Vec<String> = (0..count).map(|i| format!("row {}", i)).collect();
    rows.join("\n")
}

fn plain(row: usize, y: i64) -> FrameRow {
    FrameRow { row, y, selection: None, caret: None }
}

#[test]
fn frame_of_a_short_document_shows_every_row() {
    let buffer = open("ab\ncd\nef");
    let frame = buffer.draw(size(600));
    assert_eq!(
        frame.rows,
        vec![
            FrameRow { row: 0, y: 5, selection: None, caret: Some(0) },
            plain(1, 45),
            plain(2, 85),
        ]
    );
}

#[test]
fn frame_measures_the_gutter_by_the_line_count() {
    let one = open("a").draw(size(600));
    assert_eq!(one.gutter_width, 40);
    assert_eq!(one.text_left, 60);
    let ten = open(&numbered(10)).draw(size(600));
    assert_eq!(ten.gutter_width, 60);
    assert_eq!(ten.text_left, 80);
    let hundred = open(&numbered(100)).draw(size(600));
    assert_eq!(hundred.gutter_width, 80);
    assert_eq!(hundred.text_left, 100);
}

#[test]
fn frame_stops_below_the_view() {
    let buffer = open(&numbered(20));
    // Rows start at 5, 45, 85, 125: the last one that starts within 100.
    let frame = buffer.draw(size(100));
    let rows: Vec<usize> = frame.rows.iter().map(|r| r.row).collect();
    assert_eq!(rows, vec![0, 1, 2]);
    // A row that starts on the last pixel row is still drawn.
    let frame = buffer.draw(size(125));
    let rows: Vec<usize> = frame.rows.iter().map(|r| r.row).collect();
    assert_eq!(rows, vec![0, 1, 2, 3]);
    let frame = buffer.draw(size(124));
    let rows: Vec<usize> = frame.rows.iter().map(|r| r.row).collect();
    assert_eq!(rows, vec![0, 1, 2]);
}

#[test]
fn frame_skips_rows_above_the_view() {
    let mut buffer = open(&numbered(20));
    buffer.scroll(200);
    let frame = buffer.draw(size(100));
    // Row r starts at 5 - 200 + 40 r: -35 for row 4, 5 for row 5, 85 for
    // row 7, 125 for row 8.
    assert_eq!(
        frame.rows,
        vec![plain(4, -35), plain(5, 5), plain(6, 45), plain(7, 85)]
    );
}

#[test]
fn frame_keeps_a_row_that_ends_at_the_top_edge() {
    let mut buffer = open(&numbered(20));
    // Row 1 starts at 5 - 85 + 40 = -40 and is kept; row 0 at -80 is not.
    buffer.scroll(85);
    let frame = buffer.draw(size(100));
    assert_eq!(frame.rows[0], plain(1, -40));
    buffer.scroll(1);
    let frame = buffer.draw(size(100));
    assert_eq!(frame.rows[0], plain(2, -1));
}

#[test]
fn frame_uses_the_size_it_is_given() {
    let buffer = open(&numbered(20));
    assert_eq!(buffer.size().height, 600);
    assert_eq!(buffer.draw(size(0)).rows.len(), 0);
    assert_eq!(buffer.draw(size(5)).rows.len(), 1);
    assert_eq!(buffer.draw(size(600)).rows.len(), 15);
    assert_eq!(buffer.draw(size(4000)).rows.len(), 20);
}

#[test]
fn frame_marks_the_row_of_the_caret() {
    let mut buffer = open("abc\ndef\nghi");
    buffer.handle_keyboard_input(KeyboardInput {
        state: ElementState::Pressed,
        virtual_keycode: Some(VirtualKeyCode::Down),
    });
    buffer.handle_keyboard_input(KeyboardInput {
        state: ElementState::Pressed,
        virtual_keycode: Some(VirtualKeyCode::Right),
    });
    let frame = buffer.draw(size(600));
    assert_eq!(
        frame.rows,
        vec![
            plain(0, 5),
            FrameRow { row: 1, y: 45, selection: None, caret: Some(1) },
            plain(2, 85),
        ]
    );
}

#[test]
fn frame_carries_the_selected_columns_of_each_row() {
    let mut buffer = open("abcdef\nghi\njklmno\npq");
    buffer.handle_mouse_input(
        MouseButton::Left,
        ElementState::Pressed,
        PhysicalPosition { x: 60 + 2 * 19 + 2, y: 10 },
    );
    buffer.handle_mouse_move(PhysicalPosition { x: 60 + 4 * 19 + 2, y: 90 });
    let frame = buffer.draw(size(600));
    assert_eq!(
        frame.rows,
        vec![
            FrameRow { row: 0, y: 5, selection: Some((2, 6)), caret: None },
            FrameRow { row: 1, y: 45, selection: Some((0, 3)), caret: None },
            FrameRow { row: 2, y: 85, selection: Some((0, 4)), caret: Some(4) },
            plain(3, 125),
        ]
    );
}

#[test]
fn frame_of_a_selection_within_one_row() {
    let mut buffer = open("abcd");
    buffer.handle_mouse_input(
        MouseButton::Left,
        ElementState::Pressed,
        PhysicalPosition { x: 60 + 3 * 19 + 2, y: 10 },
    );
    buffer.handle_mouse_move(PhysicalPosition { x: 60 + 19 + 2, y: 10 });
    let frame = buffer.draw(size(600));
    assert_eq!(
        frame.rows,
        vec![FrameRow { row: 0, y: 5, selection: Some((1, 3)), caret: Some(1) }]
    );
}
