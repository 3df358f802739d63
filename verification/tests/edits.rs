use vreq::edit::{
    insert_char, insert_line_after, line_at, line_rest, remove_at, remove_before, remove_line,
    selection, truncate_line,
};

fn pair(text: &str, at: usize) -> (String, usize) {
    (text.to_string(), at)
}

#[test]
fn remove_first_line() {
    assert_eq!(remove_line("abc\ndef", 1), pair("def", 0));
}

#[test]
fn remove_middle_line() {
    assert_eq!(remove_line("a\nb\nc", 2), pair("a\nc", 2));
    assert_eq!(remove_line("a\nbcd\ne", 4), pair("a\ne", 2));
}

#[test]
fn remove_last_line_puts_cursor_on_new_last_line() {
    assert_eq!(remove_line("abc\ndef", 5), pair("abc", 0));
    assert_eq!(remove_line("a\nbc\nd", 5), pair("a\nbc", 2));
}

#[test]
fn remove_only_line_leaves_nothing() {
    assert_eq!(remove_line("abc", 2), pair("", 0));
    assert_eq!(remove_line("", 0), pair("", 0));
}

#[test]
fn remove_line_keeps_a_last_line_break() {
    assert_eq!(remove_line("abc\ndef\n", 0), pair("def\n", 0));
    assert_eq!(remove_line("abc\n", 4), pair("abc", 0));
}

#[test]
fn truncate_from_cursor_to_line_end() {
    assert_eq!(truncate_line("hello world\nx", 5), "hello\nx");
    assert_eq!(truncate_line("hello", 0), "");
    assert_eq!(truncate_line("ab\ncd", 2), "ab\ncd");
    assert_eq!(truncate_line("ab\ncd", 4), "ab\nc");
}

#[test]
fn line_of_an_offset() {
    assert_eq!(line_at("abc\ndef", 5), "def");
    assert_eq!(line_at("abc\ndef", 3), "abc");
    assert_eq!(line_at("abc\n\ndef", 4), "");
    assert_eq!(line_at("", 0), "");
}

#[test]
fn rest_of_a_line() {
    assert_eq!(line_rest("abc\ndef", 5), "ef");
    assert_eq!(line_rest("abc\ndef", 0), "abc");
    assert_eq!(line_rest("abc\ndef", 3), "");
}

#[test]
fn insert_line_behind_the_line_of_the_cursor() {
    assert_eq!(insert_line_after("abc\ndef", 1, "X"), pair("abc\nX\ndef", 4));
    assert_eq!(insert_line_after("abc\ndef", 3, "X"), pair("abc\nX\ndef", 4));
}

#[test]
fn insert_line_behind_the_last_line() {
    assert_eq!(insert_line_after("abc", 3, "X"), pair("abc\nX", 4));
    assert_eq!(insert_line_after("abc\ndef", 6, "X"), pair("abc\ndef\nX", 8));
}

#[test]
fn insert_line_into_empty_text() {
    assert_eq!(insert_line_after("", 0, "X"), pair("X", 0));
}

#[test]
fn insert_a_character() {
    assert_eq!(insert_char("ac", 1, 'b'), pair("abc", 2));
    assert_eq!(insert_char("", 0, 'x'), pair("x", 1));
    assert_eq!(insert_char("ab", 2, '\n'), pair("ab\n", 3));
}

#[test]
fn insert_a_wide_character_moves_by_its_width() {
    assert_eq!(insert_char("ac", 1, 'é'), pair("aéc", 3));
    assert_eq!(insert_char("ac", 1, '日'), pair("a日c", 4));
    assert_eq!(insert_char("ac", 2, '😀'), pair("ac😀", 6));
}

#[test]
fn remove_the_character_before() {
    assert_eq!(remove_before("abc", 2), pair("ac", 1));
    assert_eq!(remove_before("abc", 3), pair("ab", 2));
    assert_eq!(remove_before("abc", 0), pair("abc", 0));
    assert_eq!(remove_before("aéc", 3), pair("ac", 1));
    assert_eq!(remove_before("", 0), pair("", 0));
}

#[test]
fn remove_the_character_at() {
    assert_eq!(remove_at("abc", 1), "ac");
    assert_eq!(remove_at("abc", 0), "bc");
    assert_eq!(remove_at("aéc", 1), "ac");
}

#[test]
fn remove_at_the_end_changes_nothing() {
    assert_eq!(remove_at("abc", 3), "abc");
    assert_eq!(remove_at("", 0), "");
}

#[test]
fn selection_includes_the_character_at_its_later_end() {
    assert_eq!(selection("line1\nline2", 0, 4), "line1");
    assert_eq!(selection("line1\nline2", 4, 0), "line1");
    assert_eq!(selection("line1\nline2", 2, 2), "n");
    assert_eq!(selection("line1\nline2", 3, 7), "e1\nli");
}

#[test]
fn selection_stops_at_the_end_of_the_text() {
    assert_eq!(selection("abc", 1, 3), "bc");
    assert_eq!(selection("abc", 3, 3), "");
    assert_eq!(selection("abc", 1, 50), "bc");
}

#[test]
fn selection_takes_characters_whole() {
    assert_eq!(selection("aé", 0, 1), "aé");
    assert_eq!(selection("日本語", 3, 3), "本");
}
