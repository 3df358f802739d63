use vreq::headers::{collect_headers, header_block, header_of, parse_headers};
use vreq::http::Headers;
use vreq::trim::trim;

fn owned(list: &[(&str, &str)]) -> Vec<(String, String)> {
    list.iter().map(|(k, v)| (k.to_string(), v.to_string())).collect()
}

#[test]
fn malformed_line_is_dropped() {
    assert_eq!(
        parse_headers("Content-Type: application/json\nBad Line"),
        owned(&[("Content-Type", "application/json")])
    );
}

#[test]
fn each_line_is_split_at_its_first_colon() {
    assert_eq!(
        parse_headers("A:1\n  B : 2 \n:novalue\nC:x:y"),
        owned(&[("A", "1"), ("B", "2"), ("", "novalue"), ("C", "x:y")])
    );
}

#[test]
fn empty_block_has_no_headers() {
    assert_eq!(parse_headers(""), owned(&[]));
    assert_eq!(parse_headers("\n\n"), owned(&[]));
    assert_eq!(parse_headers("no colon here"), owned(&[]));
}

#[test]
fn carriage_returns_are_white_space() {
    assert_eq!(
        parse_headers("Accept: */*\r\nHost: example.com\r\n"),
        owned(&[("Accept", "*/*"), ("Host", "example.com")])
    );
}

#[test]
fn repeated_names_are_kept_in_order() {
    assert_eq!(parse_headers("X: 1\nX: 2"), owned(&[("X", "1"), ("X", "2")]));
}

#[test]
fn one_line() {
    assert_eq!(header_of("Key: Value"), Some(("Key".to_string(), "Value".to_string())));
    assert_eq!(header_of("Key:"), Some(("Key".to_string(), String::new())));
    assert_eq!(header_of("Key"), None);
    assert_eq!(header_of(""), None);
    assert_eq!(header_of(" é : ü "), Some(("é".to_string(), "ü".to_string())));
}

#[test]
fn trim_takes_white_space_off_both_ends() {
    assert_eq!(trim("  a b \t\n"), "a b");
    assert_eq!(trim("a"), "a");
    assert_eq!(trim(""), "");
    assert_eq!(trim(" \t "), "");
    assert_eq!(trim("\u{a0}é\u{3000}"), "é");
}

#[test]
fn later_header_wins() {
    let headers = collect_headers(&owned(&[("X", "1"), ("Y", "a"), ("X", "2")]));
    assert_eq!(headers.len(), 2);
    assert_eq!(headers.get("X"), Some("2"));
    assert_eq!(headers.get("Y"), Some("a"));
    assert_eq!(headers.get("x"), None);
    assert_eq!(headers.position("X"), Some(0));
    assert_eq!(headers.position("Y"), Some(1));
    assert_eq!(headers.position("Z"), None);
}

#[test]
fn headers_written_one_per_line() {
    let headers = Headers::new()
        .insert("Accept".to_string(), "*/*".to_string())
        .insert("Host".to_string(), "example.com".to_string());
    assert_eq!(header_block(&headers), "Accept: */*\nHost: example.com");
    assert_eq!(header_block(&Headers::new()), "");
    let one = Headers::new().insert("A".to_string(), "b".to_string());
    assert_eq!(header_block(&one), "A: b");
}

#[test]
fn written_headers_read_back() {
    let list = owned(&[("Accept", "*/*"), ("Host", "example.com")]);
    let block = header_block(&collect_headers(&list));
    assert_eq!(parse_headers(&block), list);
}
