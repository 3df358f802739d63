use vreq::words::{word_backward, word_forward};

#[test]
fn forward_over_a_word_and_its_blank() {
    assert_eq!(word_forward("foo bar", 0), 4);
    assert_eq!(word_forward("foo bar", 1), 4);
    assert_eq!(word_forward("foo bar", 4), 7);
}

#[test]
fn forward_at_the_end_stays() {
    assert_eq!(word_forward("foo bar", 7), 7);
    assert_eq!(word_forward("foo bar", 12), 12);
    assert_eq!(word_forward("", 0), 0);
}

#[test]
fn forward_stops_between_word_and_punctuation() {
    assert_eq!(word_forward("foo, bar", 0), 3);
    assert_eq!(word_forward("foo, bar", 3), 5);
    assert_eq!(word_forward("a_b1 +- x", 0), 5);
    assert_eq!(word_forward("a_b1 +- x", 5), 8);
    assert_eq!(word_forward("a_b1 +- x", 8), 9);
}

#[test]
fn forward_from_white_space_skips_it() {
    assert_eq!(word_forward("a   b", 1), 4);
    assert_eq!(word_forward("a\n\tb", 1), 3);
    assert_eq!(word_forward("a  ", 1), 3);
}

#[test]
fn forward_takes_characters_whole() {
    // "héllo" is 6 bytes long, "wörld" begins at offset 7
    let text = "héllo wörld";
    assert_eq!(word_forward(text, 0), 7);
    assert_eq!(word_forward(text, 2), 7);
    assert_eq!(word_forward(text, 7), 13);
    assert_eq!(word_forward("日本語 x", 0), 10);
    // a no-break space is white space
    assert_eq!(word_forward("a\u{a0}b", 0), 3);
}

#[test]
fn forward_repeated_reaches_the_end() {
    let text = "GET /path?x=1 HTTP/1.1\nHost: example.com";
    let mut at = 0;
    let mut steps = 0;
    while at < text.len() {
        let next = word_forward(text, at);
        assert!(next > at);
        assert!(next <= text.len());
        assert!(text.is_char_boundary(next));
        at = next;
        steps += 1;
        assert!(steps <= text.len());
    }
    assert_eq!(at, text.len());
    assert_eq!(word_forward(text, at), text.len());
}

#[test]
fn backward_to_the_beginning_of_a_word() {
    assert_eq!(word_backward("foo bar", 7), 4);
    assert_eq!(word_backward("foo bar", 5), 4);
    assert_eq!(word_backward("foo bar", 4), 0);
    assert_eq!(word_backward("foo bar", 3), 0);
    assert_eq!(word_backward("foo bar", 0), 0);
}

#[test]
fn backward_stops_between_word_and_punctuation() {
    assert_eq!(word_backward("foo, bar", 8), 5);
    assert_eq!(word_backward("foo, bar", 5), 3);
    assert_eq!(word_backward("foo, bar", 4), 3);
    assert_eq!(word_backward("foo, bar", 3), 0);
    assert_eq!(word_backward("x +-", 4), 2);
}

#[test]
fn backward_over_leading_white_space_stops_at_zero() {
    assert_eq!(word_backward("  a", 2), 0);
    assert_eq!(word_backward("  a", 1), 0);
}

#[test]
fn backward_past_the_end_steps_one_back() {
    assert_eq!(word_backward("abc", 10), 9);
    assert_eq!(word_backward("abc", 4), 3);
    assert_eq!(word_backward("", 1), 0);
}

#[test]
fn backward_takes_characters_whole() {
    let text = "héllo wörld";
    assert_eq!(word_backward(text, 13), 7);
    assert_eq!(word_backward(text, 9), 7);
    assert_eq!(word_backward(text, 7), 0);
    assert_eq!(word_backward(text, 3), 0);
}

#[test]
fn backward_repeated_reaches_zero() {
    let text = "GET /path?x=1 HTTP/1.1\nHost: example.com";
    let mut at = text.len();
    let mut steps = 0;
    while at > 0 {
        let next = word_backward(text, at);
        assert!(next < at);
        assert!(text.is_char_boundary(next));
        at = next;
        steps += 1;
        assert!(steps <= text.len());
    }
    assert_eq!(word_backward(text, 0), 0);
}
