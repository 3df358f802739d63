//! Edits of one text: removing and inserting characters and lines, and
//! copying parts of it.
//!
//! Every function takes the offset it is given to the nearest character
//! boundary at or before it, inside the text, before it does its work. A text
//! that comes back holds the change and nothing else; an offset that comes
//! back is a character boundary of that text.

use vstd::prelude::*;
use vstd::string::*;
use vstd::utf8::*;
use crate::chars::{
    byte_len, char_start, char_width, floor_boundary, lemma_boundary_after_ascii,
    lemma_boundary_concat, lemma_boundary_zero, lemma_char_extent, lemma_char_start,
    lemma_text_valid, lemma_utf8_concat, lemma_valid_between, on_boundary, slice, utf8, width_at,
};
use crate::motion::{
    find_line_begin, find_line_finish, lemma_line_finish_boundary, move_right, spec_left,
    spec_right,
};
use crate::text::{line_begin, line_finish, LINE_BREAK};

verus! {

/// `String::push` of std: the character is appended to the end of the string.
pub assume_specification[ String::push ](s: &mut String, c: char)
    ensures
        final(s)@ == old(s)@.push(c),
;

/// `b` with the bytes from `from` up to `to` replaced by `with`.
pub open spec fn splice(b: Seq<u8>, from: int, to: int, with: Seq<u8>) -> Seq<u8> {
    b.subrange(0, from) + with + b.subrange(to, b.len() as int)
}

/// `b` without the line that holds the boundary `c`, and without one line
/// break beside it: the one that ends the line, or for the last line the one
/// before it.
pub open spec fn spec_remove_line(b: Seq<u8>, c: int) -> Seq<u8> {
    let begin = line_begin(b, c);
    let end = line_finish(b, c);
    if end < b.len() {
        splice(b, begin, end + 1, Seq::empty())
    } else if begin > 0 {
        b.subrange(0, begin - 1)
    } else {
        Seq::empty()
    }
}

/// Where the cursor stands after the line that holds the boundary `c` is
/// removed: at the beginning of the line that follows, or of the line before
/// where the last line went, or at 0 where nothing is left.
pub open spec fn spec_remove_line_cursor(b: Seq<u8>, c: int) -> int {
    let begin = line_begin(b, c);
    let end = line_finish(b, c);
    if end < b.len() {
        begin
    } else if begin > 0 {
        line_begin(b, begin - 1)
    } else {
        0
    }
}

/// `b` with `line` put in as a line of its own behind the line that holds the
/// boundary `c`. An empty text becomes `line`.
pub open spec fn spec_insert_line_after(b: Seq<u8>, c: int, line: Seq<u8>) -> Seq<u8> {
    if b.len() == 0 {
        line
    } else {
        let end = line_finish(b, c);
        splice(b, end, end, seq![LINE_BREAK] + line)
    }
}

/// Where the line put in by [`spec_insert_line_after`] begins.
pub open spec fn spec_insert_line_cursor(b: Seq<u8>, c: int) -> int {
    if b.len() == 0 {
        0
    } else {
        line_finish(b, c) + 1
    }
}

/// `b` without the character before the boundary `c`.
pub open spec fn spec_remove_before(b: Seq<u8>, c: int) -> Seq<u8> {
    if c > 0 {
        splice(b, char_start(b, c - 1), c, Seq::empty())
    } else {
        b
    }
}

/// `b` without the character at the boundary `c`.
pub open spec fn spec_remove_at(b: Seq<u8>, c: int) -> Seq<u8> {
    if c < b.len() {
        splice(b, c, c + char_width(b, c), Seq::empty())
    } else {
        b
    }
}

/// The bytes from the earlier of the boundaries `x` and `y` up to the end of
/// the character at the later one.
pub open spec fn spec_selection(b: Seq<u8>, x: int, y: int) -> Seq<u8> {
    if x <= y {
        b.subrange(x, spec_right(b, y))
    } else {
        b.subrange(y, spec_right(b, x))
    }
}

/// The one byte of a line break is the UTF-8 encoding of `'\n'`.
pub proof fn lemma_line_break_bytes()
    ensures
        utf8(seq!['\n']) == seq![LINE_BREAK],
{
    let one = seq!['\n'];
    assert(one.drop_first() =~= Seq::<char>::empty());
    assert('\n' as u32 == 10u32);
    assert(leading_byte_width_1(10u32) == 10u8) by (bit_vector);
    assert(encode_utf8(one) =~= encode_scalar('\n' as u32) + encode_utf8(one.drop_first()));
    assert(encode_utf8(one) =~= seq![LINE_BREAK]);
}

/// A text in which a stretch between two boundaries is replaced by valid
/// UTF-8 is valid, and keeps the boundaries of its parts.
pub proof fn lemma_splice(b: Seq<u8>, from: int, to: int, with: Seq<u8>)
    requires
        valid_utf8(b),
        valid_utf8(with),
        on_boundary(b, from),
        on_boundary(b, to),
        from <= to,
    ensures
        valid_utf8(splice(b, from, to, with)),
        splice(b, from, to, with).len() == b.len() - (to - from) + with.len(),
        forall|i: int| 0 <= i <= from && on_boundary(b, i) ==> on_boundary(splice(b, from, to, with), i),
        forall|i: int| on_boundary(with, i) ==> on_boundary(splice(b, from, to, with), from + i),
        forall|i: int|
            to <= i && on_boundary(b, i) ==> on_boundary(
                splice(b, from, to, with),
                i - to + from + with.len(),
            ),
{
    let head = b.subrange(0, from);
    let tail = b.subrange(to, b.len() as int);
    lemma_valid_between(b, from, to);
    lemma_boundary_concat(head, with);
    lemma_boundary_concat(head + with, tail);
    let r = splice(b, from, to, with);
    assert forall|i: int| 0 <= i <= from && on_boundary(b, i) implies on_boundary(r, i) by {
        assert(on_boundary(head, i));
        assert(on_boundary(head + with, i));
    }
    assert forall|i: int| on_boundary(with, i) implies on_boundary(r, from + i) by {
        assert(on_boundary(head + with, head.len() + i));
    }
    assert forall|i: int| to <= i && on_boundary(b, i) implies on_boundary(
        r,
        i - to + from + with.len(),
    ) by {
        assert(on_boundary(tail, i - to)) by {
            if i < b.len() {
                assert(tail[i - to] == b[i]);
            }
        }
    }
}

/// `text` with the stretch between the boundaries `from` and `to` replaced by
/// `with`.
pub(crate) fn replace_range(text: &str, from: usize, to: usize, with: &str) -> (r: String)
    requires
        from <= to,
        on_boundary(text.spec_bytes(), from as int),
        on_boundary(text.spec_bytes(), to as int),
    ensures
        utf8(r@) == splice(text.spec_bytes(), from as int, to as int, with.spec_bytes()),
{
    proof {
        lemma_text_valid(text);
        lemma_boundary_zero(text.spec_bytes());
    }
    let head = slice(text, 0, from);
    let tail = slice(text, to, byte_len(text));
    let mut r = head.to_owned();
    r.append(with);
    r.append(tail);
    proof {
        lemma_utf8_concat(head@, with@);
        lemma_utf8_concat(head@ + with@, tail@);
    }
    r
}

/// The part of `text` between the boundaries `from` and `to`, as a string of
/// its own.
pub(crate) fn copy_range(text: &str, from: usize, to: usize) -> (r: String)
    requires
        from <= to,
        on_boundary(text.spec_bytes(), from as int),
        on_boundary(text.spec_bytes(), to as int),
    ensures
        utf8(r@) == text.spec_bytes().subrange(from as int, to as int),
{
    slice(text, from, to).to_owned()
}

/// Removes the line that holds `offset`. Gives the text that is left and the
/// offset at which the cursor then stands.
pub fn remove_line(text: &str, offset: usize) -> (r: (String, usize))
    ensures
        utf8(r.0@) == spec_remove_line(
            text.spec_bytes(),
            char_start(text.spec_bytes(), offset as int),
        ),
        r.1 == spec_remove_line_cursor(
            text.spec_bytes(),
            char_start(text.spec_bytes(), offset as int),
        ),
        on_boundary(utf8(r.0@), r.1 as int),
{
    let ghost b = text.spec_bytes();
    proof {
        lemma_text_valid(text);
        lemma_boundary_zero(b);
    }
    let n: usize = byte_len(text);
    let c = floor_boundary(text, offset);
    let begin = find_line_begin(text, c);
    let end = find_line_finish(text, c);
    if end < n {
        proof {
            lemma_line_finish_boundary(b, (end + 1) as int);
            lemma_boundary_after_ascii(b, end as int);
            lemma_splice(b, begin as int, end + 1, Seq::empty());
        }
        let left = replace_range(text, begin, end + 1, "");
        proof {
            assert(""@.len() == 0) by {
                reveal_strlit("");
            }
            assert(utf8(""@) =~= Seq::<u8>::empty());
        }
        (left, begin)
    } else if begin > 0 {
        proof {
            lemma_boundary_after_ascii(b, begin - 1);
        }
        let left = copy_range(text, 0, begin - 1);
        let at = find_line_begin(text, begin - 1);
        (left, at)
    } else {
        let left = String::new();
        proof {
            assert(utf8(left@) =~= Seq::<u8>::empty());
        }
        (left, 0)
    }
}

/// Removes what stands between `offset` and the end of its line. The line
/// break stays.
pub fn truncate_line(text: &str, offset: usize) -> (r: String)
    ensures
        ({
            let b = text.spec_bytes();
            let c = char_start(b, offset as int);
            &&& utf8(r@) == splice(b, c, line_finish(b, c), Seq::empty())
            &&& on_boundary(utf8(r@), c)
        }),
{
    let ghost b = text.spec_bytes();
    proof {
        lemma_text_valid(text);
    }
    let c = floor_boundary(text, offset);
    let end = find_line_finish(text, c);
    proof {
        lemma_splice(b, c as int, end as int, Seq::empty());
        assert(""@.len() == 0) by {
            reveal_strlit("");
        }
        assert(utf8(""@) =~= Seq::<u8>::empty());
    }
    replace_range(text, c, end, "")
}

/// The line that holds `offset`, without its line break.
pub fn line_at(text: &str, offset: usize) -> (r: String)
    ensures
        ({
            let b = text.spec_bytes();
            let c = char_start(b, offset as int);
            utf8(r@) == b.subrange(line_begin(b, c), line_finish(b, c))
        }),
{
    let c = floor_boundary(text, offset);
    let begin = find_line_begin(text, c);
    let end = find_line_finish(text, c);
    copy_range(text, begin, end)
}

/// What stands between `offset` and the end of its line.
pub fn line_rest(text: &str, offset: usize) -> (r: String)
    ensures
        ({
            let b = text.spec_bytes();
            let c = char_start(b, offset as int);
            utf8(r@) == b.subrange(c, line_finish(b, c))
        }),
{
    let c = floor_boundary(text, offset);
    let end = find_line_finish(text, c);
    copy_range(text, c, end)
}

/// Puts `line` in as a line of its own behind the line that holds `offset`.
/// Gives the new text and the offset at which the new line begins.
pub fn insert_line_after(text: &str, offset: usize, line: &str) -> (r: (String, usize))
    ensures
        utf8(r.0@) == spec_insert_line_after(
            text.spec_bytes(),
            char_start(text.spec_bytes(), offset as int),
            line.spec_bytes(),
        ),
        r.1 == spec_insert_line_cursor(
            text.spec_bytes(),
            char_start(text.spec_bytes(), offset as int),
        ),
        on_boundary(utf8(r.0@), r.1 as int),
{
    let ghost b = text.spec_bytes();
    proof {
        lemma_text_valid(text);
        lemma_text_valid(line);
        lemma_boundary_zero(line.spec_bytes());
    }
    if byte_len(text) == 0 {
        return (line.to_owned(), 0);
    }
    let c = floor_boundary(text, offset);
    let end = find_line_finish(text, c);
    let mut put = String::new();
    put.push('\n');
    put.append(line);
    proof {
        assert(Seq::<char>::empty().push('\n') =~= seq!['\n']);
        lemma_utf8_concat(seq!['\n'], line@);
        lemma_line_break_bytes();
        encode_utf8_valid_utf8(put@);
        lemma_splice(b, end as int, end as int, utf8(put@));
        lemma_boundary_after_ascii(utf8(put@), 0);
    }
    let whole = replace_range(text, end, end, put.as_str());
    let ghost grown = utf8(whole@);
    assert(grown.len() == b.len() + 1 + line.spec_bytes().len());
    let at: usize = byte_len(whole.as_str()) - (byte_len(text) - end) - byte_len(line);
    (whole, at)
}

/// Puts `c` in at `offset`. Gives the new text and the offset behind the new
/// character.
pub fn insert_char(text: &str, offset: usize, c: char) -> (r: (String, usize))
    ensures
        ({
            let b = text.spec_bytes();
            let at = char_start(b, offset as int);
            &&& utf8(r.0@) == splice(b, at, at, utf8(seq![c]))
            &&& r.1 == at + utf8(seq![c]).len()
            &&& on_boundary(utf8(r.0@), r.1 as int)
        }),
{
    let ghost b = text.spec_bytes();
    proof {
        lemma_text_valid(text);
    }
    let at = floor_boundary(text, offset);
    let mut put = String::new();
    put.push(c);
    proof {
        assert(Seq::<char>::empty().push(c) =~= seq![c]);
        encode_utf8_valid_utf8(put@);
        lemma_splice(b, at as int, at as int, utf8(put@));
    }
    let whole = replace_range(text, at, at, put.as_str());
    let behind: usize = byte_len(whole.as_str()) - (byte_len(text) - at);
    (whole, behind)
}

/// Removes the character before `offset`. Gives the new text and the offset
/// at which that character began. At offset 0 nothing changes.
pub fn remove_before(text: &str, offset: usize) -> (r: (String, usize))
    ensures
        ({
            let b = text.spec_bytes();
            let c = char_start(b, offset as int);
            &&& utf8(r.0@) == spec_remove_before(b, c)
            &&& r.1 == spec_left(b, c)
            &&& on_boundary(utf8(r.0@), r.1 as int)
        }),
{
    let ghost b = text.spec_bytes();
    proof {
        lemma_text_valid(text);
    }
    let c = floor_boundary(text, offset);
    if c > 0 {
        let q = floor_boundary(text, c - 1);
        proof {
            lemma_splice(b, q as int, c as int, Seq::empty());
            assert(""@.len() == 0) by {
                reveal_strlit("");
            }
            assert(utf8(""@) =~= Seq::<u8>::empty());
        }
        (replace_range(text, q, c, ""), q)
    } else {
        (text.to_owned(), 0)
    }
}

/// Removes the character at `offset`. At the end of the text nothing changes.
pub fn remove_at(text: &str, offset: usize) -> (r: String)
    ensures
        ({
            let b = text.spec_bytes();
            let c = char_start(b, offset as int);
            &&& utf8(r@) == spec_remove_at(b, c)
            &&& on_boundary(utf8(r@), c)
        }),
{
    let ghost b = text.spec_bytes();
    proof {
        lemma_text_valid(text);
    }
    let c = floor_boundary(text, offset);
    if c < byte_len(text) {
        let w = width_at(text, c);
        proof {
            lemma_splice(b, c as int, c + w, Seq::empty());
            assert(""@.len() == 0) by {
                reveal_strlit("");
            }
            assert(utf8(""@) =~= Seq::<u8>::empty());
        }
        replace_range(text, c, c + w, "")
    } else {
        text.to_owned()
    }
}

/// What stands between the offsets `anchor` and `cursor`, the character at the
/// later of the two included.
pub fn selection(text: &str, anchor: usize, cursor: usize) -> (r: String)
    ensures
        ({
            let b = text.spec_bytes();
            utf8(r@) == spec_selection(
                b,
                char_start(b, anchor as int),
                char_start(b, cursor as int),
            )
        }),
{
    let x = floor_boundary(text, anchor);
    let y = floor_boundary(text, cursor);
    let from: usize = if x <= y { x } else { y };
    let last: usize = if x <= y { y } else { x };
    let to = move_right(text, last);
    proof {
        lemma_text_valid(text);
        lemma_char_start(text.spec_bytes(), last as int);
        if last < text.spec_bytes().len() {
            lemma_char_extent(text.spec_bytes(), last as int);
        }
    }
    copy_range(text, from, to)
}

} // verus!
