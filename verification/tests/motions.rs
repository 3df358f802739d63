use vreq::chars::floor_boundary;
use vreq::motion::{
    move_down, move_last_line, move_left, move_line_end, move_line_start, move_right, move_up,
};

#[test]
fn left_and_right_by_one_character() {
    assert_eq!(move_left("abc", 2), 1);
    assert_eq!(move_left("abc", 0), 0);
    assert_eq!(move_right("abc", 0), 1);
    assert_eq!(move_right("abc", 2), 3);
    assert_eq!(move_right("abc", 3), 3);
    assert_eq!(move_right("", 0), 0);
}

#[test]
fn left_and_right_take_characters_whole() {
    assert_eq!(move_right("aé", 1), 3);
    assert_eq!(move_left("aé", 3), 1);
    assert_eq!(move_right("日本", 0), 3);
    assert_eq!(move_left("日本", 6), 3);
}

#[test]
fn an_offset_outside_is_taken_into_the_text_first() {
    assert_eq!(move_left("abc", 100), 2);
    assert_eq!(move_right("abc", 100), 3);
    assert_eq!(move_right("aé", 2), 3);
    assert_eq!(move_left("aé", 2), 0);
}

#[test]
fn floor_boundary_goes_back_to_the_start_of_a_character() {
    assert_eq!(floor_boundary("aé", 0), 0);
    assert_eq!(floor_boundary("aé", 1), 1);
    assert_eq!(floor_boundary("aé", 2), 1);
    assert_eq!(floor_boundary("aé", 3), 3);
    assert_eq!(floor_boundary("aé", 9), 3);
    assert_eq!(floor_boundary("", 4), 0);
}

#[test]
fn down_keeps_the_column() {
    assert_eq!(move_down("abc\ndef", 1), 5);
    assert_eq!(move_down("abc\ndef", 3), 7);
    assert_eq!(move_down("abc\nde\nf", 4), 7);
}

#[test]
fn down_stops_at_the_end_of_a_shorter_line() {
    assert_eq!(move_down("abcdef\nxy", 5), 9);
    assert_eq!(move_down("abc\n\nxyz", 2), 4);
}

#[test]
fn down_on_the_last_line_stays() {
    assert_eq!(move_down("abc\ndef", 5), 5);
    assert_eq!(move_down("abc", 1), 1);
    assert_eq!(move_down("", 0), 0);
}

#[test]
fn up_keeps_the_column() {
    assert_eq!(move_up("abc\ndef", 5), 1);
    assert_eq!(move_up("abc\ndef", 7), 3);
}

#[test]
fn up_stops_at_the_end_of_a_shorter_line() {
    assert_eq!(move_up("ab\ncdef", 6), 2);
    assert_eq!(move_up("\ncdef", 3), 0);
}

#[test]
fn up_on_the_first_line_stays() {
    assert_eq!(move_up("abc\ndef", 2), 2);
    assert_eq!(move_up("", 0), 0);
}

#[test]
fn up_and_down_never_land_inside_a_character() {
    // line 0 is "aé" (3 bytes), line 1 is "éa" and begins at offset 4
    assert_eq!(move_down("aé\néa", 1), 4);
    assert_eq!(move_down("aé\néa", 3), 7);
    assert_eq!(move_up("aé\néa", 6), 1);
}

#[test]
fn line_start_and_end() {
    assert_eq!(move_line_start("abc\ndef", 6), 4);
    assert_eq!(move_line_start("abc\ndef", 2), 0);
    assert_eq!(move_line_start("abc\ndef", 4), 4);
    assert_eq!(move_line_end("abc\ndef", 1), 3);
    assert_eq!(move_line_end("abc\ndef", 4), 7);
    assert_eq!(move_line_end("abc\ndef", 3), 3);
    assert_eq!(move_line_end("", 0), 0);
}

#[test]
fn last_line_start() {
    assert_eq!(move_last_line("a\nb\nc"), 4);
    assert_eq!(move_last_line("abc"), 0);
    assert_eq!(move_last_line(""), 0);
    assert_eq!(move_last_line("abc\n"), 4);
}
