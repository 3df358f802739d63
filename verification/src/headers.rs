//! The header block: one header per line, written as `name: value`.
//!
//! A line is split at its first colon, and both sides lose the white space at
//! their ends. A line without a colon holds no header and is passed over.

use vstd::prelude::*;
use vstd::string::*;
use vstd::utf8::*;
use crate::chars::{
    byte_len, lemma_boundary_after_ascii, lemma_boundary_zero, lemma_text_valid,
    lemma_utf8_concat, on_boundary, slice, utf8,
};
use crate::edit::lemma_line_break_bytes;
use crate::http::Headers;
use crate::motion::find_line_finish;
use crate::text::{lemma_line_finish, line_finish, LINE_BREAK};
use crate::trim::{spec_trim, trim};

verus! {

/// The byte that parts a header's name from its value.
pub const COLON: u8 = 58;

/// The offset of the first colon of `t` at or behind `i`, or the length of `t`
/// where there is none.
pub open spec fn first_colon(t: Seq<u8>, i: int) -> int
    decreases t.len() - i,
{
    if i >= t.len() {
        t.len() as int
    } else if i >= 0 && t[i] == COLON {
        i
    } else {
        first_colon(t, i + 1)
    }
}

/// The header that `line` holds, as name and value, if it holds one.
pub open spec fn spec_header_of(line: Seq<u8>) -> Option<(Seq<u8>, Seq<u8>)> {
    let p = first_colon(line, 0);
    if p >= line.len() {
        None
    } else {
        Some((spec_trim(line.subrange(0, p)), spec_trim(line.subrange(p + 1, line.len() as int))))
    }
}

/// The headers of the lines of `b` from the line that begins at `s` on, in
/// order.
pub open spec fn spec_headers_from(b: Seq<u8>, s: int) -> Seq<(Seq<u8>, Seq<u8>)>
    decreases b.len() - s,
{
    if s < 0 || s > b.len() {
        Seq::empty()
    } else {
        let e = line_finish(b, s);
        let rest = if e >= b.len() {
            Seq::empty()
        } else {
            proof {
                lemma_line_finish(b, s);
            }
            spec_headers_from(b, e + 1)
        };
        match spec_header_of(b.subrange(s, e)) {
            Some(h) => seq![h] + rest,
            None => rest,
        }
    }
}

/// The headers that the header block `b` holds, in the order of its lines.
pub open spec fn spec_parse_headers(b: Seq<u8>) -> Seq<(Seq<u8>, Seq<u8>)> {
    spec_headers_from(b, 0)
}

/// Names and values as bytes.
pub open spec fn pairs_of(list: Seq<(String, String)>) -> Seq<(Seq<u8>, Seq<u8>)> {
    list.map_values(|e: (String, String)| (utf8(e.0@), utf8(e.1@)))
}

/// The mapping that a list of headers stands for: a later header wins over an
/// earlier one of the same name.
pub open spec fn mapping_of_pairs(list: Seq<(Seq<u8>, Seq<u8>)>) -> Map<Seq<u8>, Seq<u8>>
    decreases list.len(),
{
    if list.len() == 0 {
        Map::empty()
    } else {
        mapping_of_pairs(list.drop_last()).insert(list.last().0, list.last().1)
    }
}

/// One header written as a line: the name, a colon, a blank, the value.
pub open spec fn spec_header_line(name: Seq<u8>, value: Seq<u8>) -> Seq<u8> {
    name + seq![COLON, 32u8] + value
}

/// Headers written as a header block: one line each, in order, with a line
/// break between two lines.
pub open spec fn spec_header_block(list: Seq<(Seq<u8>, Seq<u8>)>) -> Seq<u8>
    decreases list.len(),
{
    if list.len() == 0 {
        Seq::empty()
    } else if list.len() == 1 {
        spec_header_line(list[0].0, list[0].1)
    } else {
        spec_header_block(list.drop_last()) + seq![LINE_BREAK] + spec_header_line(
            list.last().0,
            list.last().1,
        )
    }
}

/// The header that `line` holds, if it holds one.
pub fn header_of(line: &str) -> (r: Option<(String, String)>)
    ensures
        match r {
            Some(h) => spec_header_of(line.spec_bytes()) == Some((utf8(h.0@), utf8(h.1@))),
            None => spec_header_of(line.spec_bytes()) is None,
        },
{
    let b = line.as_bytes();
    let n: usize = b.len();
    let mut p: usize = 0;
    while p < n && b[p] != COLON
        invariant
            b@ == line.spec_bytes(),
            n == b@.len(),
            p <= n,
            first_colon(b@, p as int) == first_colon(b@, 0),
        decreases n - p,
    {
        p = p + 1;
    }
    if p >= n {
        return None;
    }
    proof {
        lemma_text_valid(line);
        lemma_boundary_zero(b@);
        lemma_boundary_after_ascii(b@, p as int);
    }
    let name = trim(slice(line, 0, p));
    let value = trim(slice(line, p + 1, n));
    Some((name.to_owned(), value.to_owned()))
}

/// The headers that the header block `text` holds, in the order of its lines.
pub fn parse_headers(text: &str) -> (r: Vec<(String, String)>)
    ensures
        pairs_of(r@) == spec_parse_headers(text.spec_bytes()),
{
    let ghost b = text.spec_bytes();
    proof {
        lemma_text_valid(text);
        lemma_boundary_zero(b);
    }
    let n: usize = byte_len(text);
    let mut found: Vec<(String, String)> = Vec::new();
    let mut s: usize = 0;
    proof {
        assert(pairs_of(found@) =~= Seq::empty());
        assert(pairs_of(found@) + spec_headers_from(b, 0) =~= spec_parse_headers(b));
    }
    loop
        invariant_except_break
            pairs_of(found@) + spec_headers_from(b, s as int) == spec_parse_headers(b),
        invariant
            b == text.spec_bytes(),
            valid_utf8(b),
            n == b.len(),
            s <= n,
            on_boundary(b, s as int),
        ensures
            pairs_of(found@) == spec_parse_headers(b),
        decreases n - s,
    {
        let e = find_line_finish(text, s);
        let ghost before = found@;
        let ghost rest = if e >= n {
            Seq::<(Seq<u8>, Seq<u8>)>::empty()
        } else {
            spec_headers_from(b, e + 1)
        };
        match header_of(slice(text, s, e)) {
            Some(h) => {
                let ghost pair = (utf8(h.0@), utf8(h.1@));
                found.push(h);
                proof {
                    assert(pairs_of(found@) =~= pairs_of(before).push(pair));
                    assert(pairs_of(found@) + rest =~= pairs_of(before) + (seq![pair] + rest));
                }
            },
            None => {},
        }
        if e >= n {
            proof {
                assert(pairs_of(found@) + rest =~= pairs_of(found@));
            }
            break;
        }
        proof {
            lemma_boundary_after_ascii(b, e as int);
        }
        s = e + 1;
    }
    found
}

/// The headers of `list` as a mapping; of two headers with one name the later
/// one stays.
pub fn collect_headers(list: &Vec<(String, String)>) -> (r: Headers)
    ensures
        r@ == mapping_of_pairs(pairs_of(list@)),
{
    let mut r = Headers::new();
    let mut i: usize = 0;
    while i < list.len()
        invariant
            i <= list@.len(),
            r@ == mapping_of_pairs(pairs_of(list@.take(i as int))),
        decreases list@.len() - i,
    {
        let name = list[i].0.clone();
        let value = list[i].1.clone();
        proof {
            let upto = pairs_of(list@.take(i + 1));
            assert(upto.drop_last() =~= pairs_of(list@.take(i as int)));
            assert(upto.last() == (utf8(list@[i as int].0@), utf8(list@[i as int].1@)));
        }
        r = r.insert(name, value);
        i = i + 1;
    }
    proof {
        assert(list@.take(list@.len() as int) =~= list@);
    }
    r
}

/// Writes `headers` as a header block, one line for each header in the order
/// in which their names were first set.
pub fn header_block(headers: &Headers) -> (r: String)
    ensures
        utf8(r@) == spec_header_block(pairs_of(headers.entries())),
{
    let n: usize = headers.len();
    let mut out = String::new();
    let mut i: usize = 0;
    proof {
        assert(utf8(out@) =~= Seq::<u8>::empty());
        assert(pairs_of(headers.entries().take(0)) =~= Seq::empty());
    }
    while i < n
        invariant
            n == headers.entries().len(),
            i <= n,
            utf8(out@) == spec_header_block(pairs_of(headers.entries().take(i as int))),
        decreases n - i,
    {
        let ghost before = utf8(out@);
        let ghost chars = out@;
        if i > 0 {
            out.push('\n');
        }
        let ghost mid = out@;
        out.append(headers.name_at(i));
        out.append(": ");
        out.append(headers.value_at(i));
        proof {
            let entries = headers.entries();
            let upto = pairs_of(entries.take(i + 1));
            let name = entries[i as int].0@;
            let value = entries[i as int].1@;
            assert(upto.drop_last() =~= pairs_of(entries.take(i as int)));
            assert(upto.last() == (utf8(name), utf8(value)));
            lemma_separator_bytes();
            lemma_line_break_bytes();
            lemma_utf8_concat(chars, seq!['\n']);
            lemma_utf8_concat(mid, name);
            lemma_utf8_concat(mid + name, ": "@);
            lemma_utf8_concat(mid + name + ": "@, value);
            if i > 0 {
                assert(chars.push('\n') =~= chars + seq!['\n']);
                assert(utf8(out@) =~= before + seq![LINE_BREAK] + spec_header_line(
                    utf8(name),
                    utf8(value),
                ));
            } else {
                assert(utf8(out@) =~= spec_header_line(utf8(name), utf8(value)));
            }
        }
        i = i + 1;
    }
    proof {
        assert(headers.entries().take(n as int) =~= headers.entries());
    }
    out
}

/// The bytes of the colon and the blank that stand between name and value.
pub proof fn lemma_separator_bytes()
    ensures
        utf8(": "@) == seq![COLON, 32u8],
{
    reveal_strlit(": ");
    let s = ": "@;
    assert(s =~= seq![':', ' ']);
    is_ascii_chars_encode_utf8(s);
    assert(utf8(s) =~= seq![COLON, 32u8]);
}

} // verus!
