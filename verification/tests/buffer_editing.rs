use text_buffer::buffer::Buffer;
use text_buffer::events::{ElementState, KeyboardInput, PhysicalSize, VirtualKeyCode};
use text_buffer::location::Location;

fn open(text: &str) -> Buffer {
    Buffer::new(PhysicalSize { width: 800, height: 600 }, text)
}

fn lines(buffer: &Buffer) -> Vec<String> {
    (0..buffer.line_count()).map(|row| buffer.line(row).expect("a line")).collect()
}

fn press(buffer: &mut Buffer, key: VirtualKeyCode) {
    buffer.handle_keyboard_input(KeyboardInput {
        state: ElementState::Pressed,
        virtual_keycode: Some(key),
    });
}

fn move_to(buffer: &mut Buffer, row: usize, col: usize) {
    for _ in 0..row {
        press(buffer, VirtualKeyCode::Down);
    }
    // Left at column 0 stays put in row 0 only, so go home by columns.
    while buffer.cursor().location.col > 0 {
        press(buffer, VirtualKeyCode::Left);
    }
    for _ in 0..col {
        press(buffer, VirtualKeyCode::Right);
    }
    assert_eq!(buffer.cursor().location, Location { row, col });
}

#[test]
fn new_buffer_starts_at_the_origin() {
    let buffer = open("abc\nde");
    assert_eq!(lines(&buffer), vec!["abc".to_string(), "de".to_string()]);
    assert_eq!(buffer.cursor().location, Location { row: 0, col: 0 });
    assert_eq!(buffer.cursor().col_affinity, 0);
    assert_eq!(buffer.cursor().selection_start, None);
    assert_eq!(buffer.scroll_offset(), 0);
    assert_eq!(buffer.size(), PhysicalSize { width: 800, height: 600 });
    assert!(!buffer.is_dragging());
}

#[test]
fn new_buffer_over_empty_text_has_one_line() {
    let buffer = open("");
    assert_eq!(buffer.line_count(), 1);
    assert_eq!(buffer.line(0), Some(String::new()));
    assert_eq!(buffer.line(1), None);
}

#[test]
fn newline_at_end_of_line_opens_an_empty_line() {
    let mut buffer = open("abc\nde");
    move_to(&mut buffer, 0, 3);
    buffer.handle_char_input('\n');
    assert_eq!(lines(&buffer), vec!["abc".to_string(), String::new(), "de".to_string()]);
    assert_eq!(buffer.cursor().location, Location { row: 1, col: 0 });
    assert_eq!(buffer.cursor().col_affinity, 0);
}

#[test]
fn newline_in_the_middle_splits_the_line() {
    let mut buffer = open("hello world");
    move_to(&mut buffer, 0, 5);
    buffer.handle_char_input('\n');
    assert_eq!(lines(&buffer), vec!["hello".to_string(), " world".to_string()]);
    assert_eq!(buffer.cursor().location, Location { row: 1, col: 0 });
}

#[test]
fn carriage_return_splits_like_a_newline() {
    let mut buffer = open("ab");
    move_to(&mut buffer, 0, 1);
    buffer.handle_char_input('\r');
    assert_eq!(lines(&buffer), vec!["a".to_string(), "b".to_string()]);
    assert_eq!(buffer.cursor().location, Location { row: 1, col: 0 });
}

#[test]
fn backspace_at_line_start_merges_into_the_previous_line() {
    let mut buffer = open("ab\ncd");
    move_to(&mut buffer, 1, 0);
    buffer.handle_char_input('\u{8}');
    assert_eq!(lines(&buffer), vec!["abcd".to_string()]);
    assert_eq!(buffer.cursor().location, Location { row: 0, col: 2 });
    assert_eq!(buffer.cursor().col_affinity, 2);
}

#[test]
fn backspace_removes_the_character_before_the_caret() {
    let mut buffer = open("abc");
    move_to(&mut buffer, 0, 2);
    buffer.handle_char_input('\u{8}');
    assert_eq!(lines(&buffer), vec!["ac".to_string()]);
    assert_eq!(buffer.cursor().location, Location { row: 0, col: 1 });
    assert_eq!(buffer.cursor().col_affinity, 1);
}

#[test]
fn backspace_at_the_start_of_the_document_does_nothing() {
    let mut buffer = open("ab\ncd");
    buffer.handle_char_input('\u{8}');
    assert_eq!(lines(&buffer), vec!["ab".to_string(), "cd".to_string()]);
    assert_eq!(buffer.cursor().location, Location { row: 0, col: 0 });
}

#[test]
fn delete_removes_the_character_at_the_caret() {
    let mut buffer = open("abc");
    move_to(&mut buffer, 0, 1);
    buffer.handle_char_input('\u{7f}');
    assert_eq!(lines(&buffer), vec!["ac".to_string()]);
    assert_eq!(buffer.cursor().location, Location { row: 0, col: 1 });
}

#[test]
fn delete_at_the_end_of_a_line_does_nothing() {
    let mut buffer = open("ab\ncd");
    move_to(&mut buffer, 0, 2);
    buffer.handle_char_input('\u{7f}');
    assert_eq!(lines(&buffer), vec!["ab".to_string(), "cd".to_string()]);
    assert_eq!(buffer.cursor().location, Location { row: 0, col: 2 });
}

#[test]
fn tab_is_not_inserted() {
    let mut buffer = open("ab");
    move_to(&mut buffer, 0, 1);
    buffer.handle_char_input('\t');
    assert_eq!(lines(&buffer), vec!["ab".to_string()]);
    assert_eq!(buffer.cursor().location, Location { row: 0, col: 1 });
}

#[test]
fn other_characters_are_inserted_at_the_caret() {
    let mut buffer = open("ac");
    move_to(&mut buffer, 0, 1);
    buffer.handle_char_input('b');
    assert_eq!(lines(&buffer), vec!["abc".to_string()]);
    assert_eq!(buffer.cursor().location, Location { row: 0, col: 2 });
}

#[test]
fn inserting_moves_the_caret_but_not_the_aimed_column() {
    let mut buffer = open("ac");
    move_to(&mut buffer, 0, 1);
    assert_eq!(buffer.cursor().col_affinity, 1);
    buffer.handle_char_input('b');
    assert_eq!(buffer.cursor().location.col, 2);
    assert_eq!(buffer.cursor().col_affinity, 1);
}

#[test]
fn columns_count_characters_of_any_width() {
    let mut buffer = open("日本");
    move_to(&mut buffer, 0, 1);
    buffer.handle_char_input('é');
    assert_eq!(lines(&buffer), vec!["日é本".to_string()]);
    assert_eq!(buffer.cursor().location, Location { row: 0, col: 2 });
    buffer.handle_char_input('\u{8}');
    assert_eq!(lines(&buffer), vec!["日本".to_string()]);
    buffer.handle_char_input('\u{7f}');
    assert_eq!(lines(&buffer), vec!["日".to_string()]);
}

#[test]
fn typing_a_word_and_a_line_break() {
    let mut buffer = open("");
    for c in "fn a".chars() {
        buffer.handle_char_input(c);
    }
    buffer.handle_char_input('\n');
    for c in "b".chars() {
        buffer.handle_char_input(c);
    }
    assert_eq!(lines(&buffer), vec!["fn a".to_string(), "b".to_string()]);
    assert_eq!(buffer.cursor().location, Location { row: 1, col: 1 });
}

#[test]
fn the_document_never_runs_out_of_lines() {
    let mut buffer = open("a\nb\nc");
    move_to(&mut buffer, 2, 1);
    for _ in 0..20 {
        buffer.handle_char_input('\u{8}');
        assert!(buffer.line_count() >= 1);
    }
    assert_eq!(lines(&buffer), vec![String::new()]);
    for _ in 0..5 {
        buffer.handle_char_input('\u{7f}');
        assert!(buffer.line_count() >= 1);
    }
    assert_eq!(buffer.cursor().location, Location { row: 0, col: 0 });
}

#[test]
fn editing_does_not_touch_the_selection_anchor() {
    let mut buffer = open("abcd");
    move_to(&mut buffer, 0, 2);
    buffer.handle_char_input('x');
    assert_eq!(buffer.cursor().selection_start, None);
}

#[test]
fn save_joins_the_lines_with_newlines() {
    assert_eq!(open("ab\ncd").save(), "ab\ncd");
    assert_eq!(open("ab\n").save(), "ab\n");
    assert_eq!(open("").save(), "");
    assert_eq!(open("\n\n").save(), "\n\n");
}

#[test]
fn save_then_load_gives_the_same_lines() {
    for text in ["", "a", "a\n", "a\nb", "\n", "\n\na\n\n", "fn main() {\n    let x = 1;\n}\n", "日本\né"] {
        let first = open(text);
        let saved = first.save();
        assert_eq!(saved, text);
        let second = open(&saved);
        assert_eq!(lines(&second), lines(&first));
    }
}

#[test]
fn save_after_edits_round_trips() {
    let mut buffer = open("ab\ncd");
    move_to(&mut buffer, 1, 2);
    buffer.handle_char_input('\n');
    assert_eq!(buffer.save(), "ab\ncd\n");
    let again = open(&buffer.save());
    assert_eq!(lines(&again), vec!["ab".to_string(), "cd".to_string(), String::new()]);
}

#[test]
fn trailing_empty_line_exactly_when_text_ends_in_newline() {
    let with = open("ab\n");
    assert_eq!(with.line_count(), 2);
    assert_eq!(with.line(1), Some(String::new()));
    let without = open("ab");
    assert_eq!(without.line_count(), 1);
}
