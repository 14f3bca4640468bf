use text_buffer::text::{lines_of, string_of, string_of_range};

fn strings(lines: &Vec<Vec<char>>) -> Vec<String> {
    lines.iter().map(string_of).collect()
}

#[test]
fn empty_text_is_one_empty_line() {
    assert_eq!(strings(&lines_of("")), vec![String::new()]);
}

#[test]
fn text_without_newline_is_one_line() {
    assert_eq!(strings(&lines_of("abc")), vec!["abc".to_string()]);
}

#[test]
fn text_splits_at_each_newline() {
    assert_eq!(
        strings(&lines_of("ab\ncd\nef")),
        vec!["ab".to_string(), "cd".to_string(), "ef".to_string()]
    );
}

#[test]
fn trailing_newline_leaves_an_empty_last_line() {
    assert_eq!(strings(&lines_of("ab\n")), vec!["ab".to_string(), String::new()]);
    assert_eq!(
        strings(&lines_of("\n\n")),
        vec![String::new(), String::new(), String::new()]
    );
}

#[test]
fn carriage_returns_stay_in_their_line() {
    assert_eq!(strings(&lines_of("a\r\nb")), vec!["a\r".to_string(), "b".to_string()]);
}

#[test]
fn lines_count_characters_not_bytes() {
    let lines = lines_of("héllo\n日本");
    assert_eq!(lines[0].len(), 5);
    assert_eq!(lines[1].len(), 2);
}

#[test]
fn string_of_spells_the_characters() {
    assert_eq!(string_of(&vec!['a', 'b', 'c']), "abc");
    assert_eq!(string_of(&vec!['é', '日']), "é日");
    assert_eq!(string_of(&Vec::new()), "");
}

#[test]
fn string_of_range_spells_a_stretch_of_the_characters() {
    let chars = vec!['a', '\u{e9}', '\u{65e5}', 'd'];
    assert_eq!(string_of_range(&chars, 0, 4), "a\u{e9}\u{65e5}d");
    assert_eq!(string_of_range(&chars, 1, 3), "\u{e9}\u{65e5}");
    assert_eq!(string_of_range(&chars, 2, 2), "");
    assert_eq!(string_of_range(&chars, 4, 4), "");
}
