use vreq::text::{line_col_to_offset, offset_to_line_col};

#[test]
fn offset_on_second_line() {
    assert_eq!(offset_to_line_col("GET\nPOST", 5), (1, 1));
}

#[test]
fn offset_at_line_end_stays_on_that_line() {
    assert_eq!(offset_to_line_col("GET\nPOST", 3), (0, 3));
    assert_eq!(offset_to_line_col("GET\nPOST", 4), (1, 0));
    assert_eq!(offset_to_line_col("GET\nPOST", 8), (1, 4));
}

#[test]
fn offset_past_the_end_goes_to_last_line_start() {
    assert_eq!(offset_to_line_col("GET\nPOST", 9), (1, 0));
    assert_eq!(offset_to_line_col("GET\nPOST", 500), (1, 0));
    assert_eq!(offset_to_line_col("a\nb\nc", 6), (2, 0));
}

#[test]
fn offset_in_empty_text() {
    assert_eq!(offset_to_line_col("", 0), (0, 0));
    assert_eq!(offset_to_line_col("", 5), (0, 0));
}

#[test]
fn offset_behind_a_last_line_break() {
    assert_eq!(offset_to_line_col("abc\n", 3), (0, 3));
    assert_eq!(offset_to_line_col("abc\n", 4), (1, 0));
    assert_eq!(offset_to_line_col("\n\n", 1), (1, 0));
    assert_eq!(offset_to_line_col("\n\n", 2), (2, 0));
}

#[test]
fn offsets_count_bytes() {
    // 'é' takes two bytes, so the line break stands at offset 2
    assert_eq!(offset_to_line_col("é\nx", 2), (0, 2));
    assert_eq!(offset_to_line_col("é\nx", 3), (1, 0));
    assert_eq!(offset_to_line_col("é\nx", 4), (1, 1));
}

#[test]
fn line_and_column_to_offset() {
    assert_eq!(line_col_to_offset("GET\nPOST", 0, 0), 0);
    assert_eq!(line_col_to_offset("GET\nPOST", 0, 3), 3);
    assert_eq!(line_col_to_offset("GET\nPOST", 1, 0), 4);
    assert_eq!(line_col_to_offset("GET\nPOST", 1, 1), 5);
    assert_eq!(line_col_to_offset("a\n\nbc", 2, 1), 4);
}

#[test]
fn line_past_the_last_gives_one_past_the_length() {
    assert_eq!(line_col_to_offset("GET\nPOST", 2, 0), 9);
    assert_eq!(line_col_to_offset("GET\nPOST", 2, 7), 9);
    assert_eq!(line_col_to_offset("GET\nPOST", 40, 0), 9);
    assert_eq!(line_col_to_offset("", 1, 0), 1);
    assert_eq!(line_col_to_offset("abc\n", 1, 0), 4);
    assert_eq!(line_col_to_offset("abc\n", 2, 0), 5);
}

#[test]
fn column_is_added_without_wrapping() {
    assert_eq!(line_col_to_offset("ab\ncd", 1, usize::MAX), usize::MAX);
    assert_eq!(line_col_to_offset("ab\ncd", 0, 10), 10);
}

#[test]
fn round_trip_on_every_offset() {
    for text in ["", "abc", "GET\nPOST", "ab\n\ncd\n", "\n", "é\nx\n\nyz"] {
        for offset in 0..=text.len() {
            let (line, col) = offset_to_line_col(text, offset);
            assert_eq!(line_col_to_offset(text, line, col), offset);
        }
    }
}

#[test]
fn round_trip_fails_only_past_the_end() {
    let (line, col) = offset_to_line_col("GET\nPOST", 9);
    assert_eq!(line_col_to_offset("GET\nPOST", line, col), 4);
}
