use text_buffer::buffer::Buffer;
use text_buffer::events::{ElementState, KeyboardInput, MouseButton, PhysicalPosition, PhysicalSize, VirtualKeyCode};
use text_buffer::location::{Location, Span};

fn open(text: &str) -> Buffer {
    Buffer::new(PhysicalSize { width: 800, height: 600 }, text)
}

fn at(row: usize, col: usize) -> Location {
    Location { row, col }
}

fn pixel(x: i32, y: i32) -> PhysicalPosition {
    PhysicalPosition { x, y }
}

// With fewer than ten lines the text starts at pixel 60, and a character is
// taken to be 19.065777 pixels wide.
fn pixel_of(row: i32, col: i32) -> PhysicalPosition {
    pixel(60 + col * 19 + 2, row * 40 + 10)
}

#[test]
fn click_below_the_document_goes_to_its_end() {
    let mut buffer = open("abc\nde");
    buffer.handle_mouse_input(MouseButton::Left, ElementState::Pressed, pixel(70, 5000));
    assert_eq!(buffer.cursor().location, at(1, 2));
    assert_eq!(buffer.cursor().col_affinity, 2);
}

#[test]
fn click_just_below_the_last_line_goes_to_its_end() {
    let mut buffer = open("abc\nde");
    // Row 2 would start at pixel 80.
    assert_eq!(buffer.hit_test(pixel(0, 80)), at(1, 2));
    assert_eq!(buffer.hit_test(pixel(0, 79)), at(1, 0));
    buffer.handle_mouse_input(MouseButton::Left, ElementState::Pressed, pixel(0, 80));
    assert_eq!(buffer.cursor().location, at(1, 2));
}

#[test]
fn hit_test_finds_row_and_column() {
    let buffer = open("abcdef\nghijkl\nmnopqr");
    assert_eq!(buffer.hit_test(pixel_of(0, 0)), at(0, 0));
    assert_eq!(buffer.hit_test(pixel_of(1, 3)), at(1, 3));
    assert_eq!(buffer.hit_test(pixel_of(2, 6)), at(2, 6));
    assert_eq!(buffer.hit_test(pixel(60 + 10, 39)), at(0, 1));
    assert_eq!(buffer.hit_test(pixel(60 + 9, 40)), at(1, 0));
}

#[test]
fn hit_test_stops_at_the_end_of_the_line() {
    let buffer = open("abc\nde");
    assert_eq!(buffer.hit_test(pixel(700, 10)), at(0, 3));
    assert_eq!(buffer.hit_test(pixel(700, 50)), at(1, 2));
    assert_eq!(buffer.hit_test(pixel(i32::MAX, 10)), at(0, 3));
}

#[test]
fn hit_test_in_the_gutter_is_column_zero() {
    let buffer = open("abc\nde");
    assert_eq!(buffer.hit_test(pixel(0, 50)), at(1, 0));
    assert_eq!(buffer.hit_test(pixel(-40, 50)), at(1, 0));
}

#[test]
fn hit_test_above_the_view_is_row_zero() {
    let buffer = open("abc\nde");
    assert_eq!(buffer.hit_test(pixel(60 + 19, -1)), at(0, 1));
    assert_eq!(buffer.hit_test(pixel(60 + 19, i32::MIN)), at(0, 1));
}

#[test]
fn hit_test_follows_the_scroll_position() {
    let mut buffer = open("a\nb\nc\nd\ne");
    buffer.scroll(85);
    // 10 + 85 = 95, in row 2.
    assert_eq!(buffer.hit_test(pixel(0, 10)), at(2, 0));
    assert_eq!(buffer.hit_test(pixel(0, -6)), at(1, 0));
    assert_eq!(buffer.hit_test(pixel(0, 34)), at(2, 0));
    assert_eq!(buffer.hit_test(pixel(0, 35)), at(3, 0));
}

#[test]
fn hit_test_accounts_for_a_wider_gutter() {
    let rows: Vec<String> = (0..12).map(|_| "abcdef".to_string()).collect();
    let buffer = open(&rows.join("\n"));
    // Twelve lines: two digits, the text starts at pixel 80.
    assert_eq!(buffer.hit_test(pixel(80 + 9, 0)), at(0, 0));
    assert_eq!(buffer.hit_test(pixel(80 + 10, 0)), at(0, 1));
    assert_eq!(buffer.hit_test(pixel(60 + 10, 0)), at(0, 0));
}

#[test]
fn press_moves_the_caret_and_starts_a_drag() {
    let mut buffer = open("abcdef\nghijkl");
    buffer.handle_mouse_input(MouseButton::Left, ElementState::Pressed, pixel_of(1, 4));
    assert_eq!(buffer.cursor().location, at(1, 4));
    assert_eq!(buffer.cursor().col_affinity, 4);
    assert_eq!(buffer.cursor().selection_start, None);
    assert!(buffer.is_dragging());
}

#[test]
fn release_ends_the_drag_and_keeps_the_caret() {
    let mut buffer = open("abcdef\nghijkl");
    buffer.handle_mouse_input(MouseButton::Left, ElementState::Pressed, pixel_of(1, 4));
    buffer.handle_mouse_input(MouseButton::Left, ElementState::Released, pixel_of(0, 0));
    assert!(!buffer.is_dragging());
    assert_eq!(buffer.cursor().location, at(1, 4));
}

#[test]
fn other_buttons_do_nothing() {
    let mut buffer = open("abcdef\nghijkl");
    buffer.handle_mouse_input(MouseButton::Right, ElementState::Pressed, pixel_of(1, 4));
    buffer.handle_mouse_input(MouseButton::Middle, ElementState::Pressed, pixel_of(1, 4));
    buffer.handle_mouse_input(MouseButton::Other(7), ElementState::Pressed, pixel_of(1, 4));
    assert_eq!(buffer.cursor().location, at(0, 0));
    assert!(!buffer.is_dragging());
    buffer.handle_mouse_input(MouseButton::Left, ElementState::Pressed, pixel_of(1, 4));
    buffer.handle_mouse_input(MouseButton::Right, ElementState::Released, pixel_of(1, 4));
    assert!(buffer.is_dragging());
}

#[test]
fn moving_without_a_drag_does_nothing() {
    let mut buffer = open("abcdef\nghijkl");
    buffer.handle_mouse_move(pixel_of(1, 4));
    assert_eq!(buffer.cursor().location, at(0, 0));
    assert_eq!(buffer.cursor().selection_start, None);
}

#[test]
fn dragging_selects_from_where_the_press_landed() {
    let mut buffer = open("abcdef\nghijkl");
    buffer.handle_mouse_input(MouseButton::Left, ElementState::Pressed, pixel_of(0, 1));
    buffer.handle_mouse_move(pixel_of(0, 3));
    assert_eq!(buffer.cursor().location, at(0, 3));
    assert_eq!(buffer.cursor().selection_start, Some(at(0, 1)));
    buffer.handle_mouse_move(pixel_of(1, 2));
    assert_eq!(buffer.cursor().location, at(1, 2));
    assert_eq!(buffer.cursor().selection_start, Some(at(0, 1)));
    buffer.handle_mouse_input(MouseButton::Left, ElementState::Released, pixel_of(1, 2));
    assert_eq!(buffer.cursor().selection_start, Some(at(0, 1)));
    assert_eq!(
        buffer.cursor().selection_span(),
        Some(Span { start: at(0, 1), end: at(1, 2) })
    );
}

#[test]
fn dragging_backwards_gives_an_ordered_span() {
    let mut buffer = open("abcdef\nghijkl");
    buffer.handle_mouse_input(MouseButton::Left, ElementState::Pressed, pixel_of(1, 5));
    buffer.handle_mouse_move(pixel_of(0, 2));
    assert_eq!(buffer.cursor().selection_start, Some(at(1, 5)));
    assert_eq!(
        buffer.cursor().selection_span(),
        Some(Span { start: at(0, 2), end: at(1, 5) })
    );
}

#[test]
fn selected_columns_of_a_line() {
    let mut buffer = open("abcd");
    buffer.handle_mouse_input(MouseButton::Left, ElementState::Pressed, pixel_of(0, 1));
    buffer.handle_mouse_move(pixel_of(0, 3));
    let span = buffer.cursor().selection_span().expect("a selection");
    assert_eq!(span.get_char_indices_for_line(0, 4), Some((1, 3)));
}

#[test]
fn a_new_press_drops_the_selection() {
    let mut buffer = open("abcdef\nghijkl");
    buffer.handle_mouse_input(MouseButton::Left, ElementState::Pressed, pixel_of(0, 1));
    buffer.handle_mouse_move(pixel_of(0, 3));
    buffer.handle_mouse_input(MouseButton::Left, ElementState::Released, pixel_of(0, 3));
    buffer.handle_mouse_input(MouseButton::Left, ElementState::Pressed, pixel_of(1, 1));
    assert_eq!(buffer.cursor().selection_start, None);
    assert_eq!(buffer.cursor().location, at(1, 1));
}

#[test]
fn arrow_keys_drop_the_selection() {
    for key in [VirtualKeyCode::Up, VirtualKeyCode::Down, VirtualKeyCode::Left, VirtualKeyCode::Right] {
        let mut buffer = open("abcdef\nghijkl");
        buffer.handle_mouse_input(MouseButton::Left, ElementState::Pressed, pixel_of(0, 1));
        buffer.handle_mouse_move(pixel_of(1, 3));
        buffer.handle_mouse_input(MouseButton::Left, ElementState::Released, pixel_of(1, 3));
        assert!(buffer.cursor().selection_start.is_some());
        buffer.handle_keyboard_input(KeyboardInput {
            state: ElementState::Pressed,
            virtual_keycode: Some(key),
        });
        assert_eq!(buffer.cursor().selection_start, None);
    }
}

#[test]
fn other_keys_keep_the_selection() {
    let mut buffer = open("abcdef\nghijkl");
    buffer.handle_mouse_input(MouseButton::Left, ElementState::Pressed, pixel_of(0, 1));
    buffer.handle_mouse_move(pixel_of(1, 3));
    buffer.handle_keyboard_input(KeyboardInput {
        state: ElementState::Pressed,
        virtual_keycode: Some(VirtualKeyCode::Other),
    });
    assert_eq!(buffer.cursor().selection_start, Some(at(0, 1)));
}

#[test]
fn typing_keeps_the_selection_anchor() {
    let mut buffer = open("abcdef\nghijkl");
    buffer.handle_mouse_input(MouseButton::Left, ElementState::Pressed, pixel_of(0, 1));
    buffer.handle_mouse_move(pixel_of(1, 3));
    buffer.handle_char_input('x');
    assert_eq!(buffer.cursor().selection_start, Some(at(0, 1)));
    assert_eq!(buffer.cursor().location, at(1, 4));
}
