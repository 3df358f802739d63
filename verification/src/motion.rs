//! Cursor motions inside one text: by character, by line, to the ends of a
//! line and to the last line.
//!
//! Every motion first takes the offset it is given to the nearest character
//! boundary at or before it, inside the text, and gives back an offset that is
//! a character boundary of the text.

use vstd::prelude::*;
use vstd::string::*;
use vstd::utf8::*;
use crate::chars::{
    byte_len, char_start, char_width, floor_boundary, lemma_boundary_after_ascii,
    lemma_boundary_zero, lemma_text_valid, on_boundary, width_at,
};
use crate::text::{
    lemma_line_begin, lemma_line_finish, line_begin, line_finish, LINE_BREAK,
};

verus! {

/// The smaller of two integers.
pub open spec fn least(x: int, y: int) -> int {
    if x <= y {
        x
    } else {
        y
    }
}

/// One character back from the boundary `c`; at offset 0 nothing moves.
pub open spec fn spec_left(b: Seq<u8>, c: int) -> int {
    if c > 0 {
        char_start(b, c - 1)
    } else {
        0
    }
}

/// One character ahead from the boundary `c`; at the end nothing moves.
pub open spec fn spec_right(b: Seq<u8>, c: int) -> int {
    if c < b.len() {
        c + char_width(b, c)
    } else {
        c
    }
}

/// From the boundary `c` to the line below, at the same column or at the end of
/// that line where it is shorter, taken back to a character boundary. On the
/// last line nothing moves.
pub open spec fn spec_down(b: Seq<u8>, c: int) -> int {
    let end = line_finish(b, c);
    if end < b.len() {
        let next = end + 1;
        let col = c - line_begin(b, c);
        char_start(b, next + least(col, line_finish(b, next) - next))
    } else {
        c
    }
}

/// From the boundary `c` to the line above, at the same column or at the end of
/// that line where it is shorter, taken back to a character boundary. On the
/// first line nothing moves.
pub open spec fn spec_up(b: Seq<u8>, c: int) -> int {
    let begin = line_begin(b, c);
    if begin > 0 {
        let prev = line_begin(b, begin - 1);
        let col = c - begin;
        char_start(b, prev + least(col, begin - 1 - prev))
    } else {
        c
    }
}

/// A line begins at a character boundary.
pub proof fn lemma_line_begin_boundary(b: Seq<u8>, n: int)
    requires
        valid_utf8(b),
        0 <= n <= b.len(),
    ensures
        on_boundary(b, line_begin(b, n)),
        0 <= line_begin(b, n) <= n,
{
    lemma_line_begin(b, n);
    let s = line_begin(b, n);
    if s == 0 {
        lemma_boundary_zero(b);
    } else {
        lemma_boundary_after_ascii(b, s - 1);
    }
}

/// A line ends at a character boundary.
pub proof fn lemma_line_finish_boundary(b: Seq<u8>, n: int)
    requires
        valid_utf8(b),
        0 <= n <= b.len(),
    ensures
        on_boundary(b, line_finish(b, n)),
        n <= line_finish(b, n) <= b.len(),
{
    lemma_line_finish(b, n);
    let e = line_finish(b, n);
    if e < b.len() {
        lemma_boundary_after_ascii(b, e);
    }
}

/// The offset at which the line that holds `offset` begins.
pub(crate) fn find_line_begin(text: &str, offset: usize) -> (r: usize)
    requires
        offset <= text.spec_bytes().len(),
    ensures
        r == line_begin(text.spec_bytes(), offset as int),
        r <= offset,
        on_boundary(text.spec_bytes(), r as int),
        r == 0 || text.spec_bytes()[r - 1] == LINE_BREAK,
{
    let b = text.as_bytes();
    let mut i: usize = offset;
    while i > 0 && b[i - 1] != LINE_BREAK
        invariant
            b@ == text.spec_bytes(),
            i <= offset <= b@.len(),
            line_begin(b@, i as int) == line_begin(b@, offset as int),
        decreases i,
    {
        i = i - 1;
    }
    proof {
        lemma_text_valid(text);
        lemma_line_begin_boundary(b@, offset as int);
        lemma_line_begin(b@, offset as int);
    }
    i
}

/// The offset at which the line that holds `offset` ends.
pub(crate) fn find_line_finish(text: &str, offset: usize) -> (r: usize)
    requires
        offset <= text.spec_bytes().len(),
    ensures
        r == line_finish(text.spec_bytes(), offset as int),
        offset <= r <= text.spec_bytes().len(),
        on_boundary(text.spec_bytes(), r as int),
        r == text.spec_bytes().len() || text.spec_bytes()[r as int] == LINE_BREAK,
{
    let b = text.as_bytes();
    let n: usize = b.len();
    let mut i: usize = offset;
    while i < n && b[i] != LINE_BREAK
        invariant
            b@ == text.spec_bytes(),
            n == b@.len(),
            offset <= i <= n,
            line_finish(b@, i as int) == line_finish(b@, offset as int),
        decreases n - i,
    {
        i = i + 1;
    }
    proof {
        lemma_text_valid(text);
        lemma_line_finish_boundary(b@, offset as int);
        lemma_line_finish(b@, offset as int);
    }
    i
}

/// One character back.
pub fn move_left(text: &str, offset: usize) -> (r: usize)
    ensures
        r == spec_left(text.spec_bytes(), char_start(text.spec_bytes(), offset as int)),
        on_boundary(text.spec_bytes(), r as int),
{
    let c = floor_boundary(text, offset);
    if c > 0 {
        floor_boundary(text, c - 1)
    } else {
        0
    }
}

/// One character ahead.
pub fn move_right(text: &str, offset: usize) -> (r: usize)
    ensures
        r == spec_right(text.spec_bytes(), char_start(text.spec_bytes(), offset as int)),
        on_boundary(text.spec_bytes(), r as int),
{
    let c = floor_boundary(text, offset);
    if c < byte_len(text) {
        c + width_at(text, c)
    } else {
        c
    }
}

/// To the beginning of the line.
pub fn move_line_start(text: &str, offset: usize) -> (r: usize)
    ensures
        r == line_begin(text.spec_bytes(), char_start(text.spec_bytes(), offset as int)),
        on_boundary(text.spec_bytes(), r as int),
{
    let c = floor_boundary(text, offset);
    find_line_begin(text, c)
}

/// To the end of the line: the offset of its line break, or the end of the
/// text.
pub fn move_line_end(text: &str, offset: usize) -> (r: usize)
    ensures
        r == line_finish(text.spec_bytes(), char_start(text.spec_bytes(), offset as int)),
        on_boundary(text.spec_bytes(), r as int),
{
    let c = floor_boundary(text, offset);
    find_line_finish(text, c)
}

/// To the line below.
pub fn move_down(text: &str, offset: usize) -> (r: usize)
    ensures
        r == spec_down(text.spec_bytes(), char_start(text.spec_bytes(), offset as int)),
        on_boundary(text.spec_bytes(), r as int),
{
    let c = floor_boundary(text, offset);
    let end = find_line_finish(text, c);
    if end < byte_len(text) {
        let next: usize = end + 1;
        let col: usize = c - find_line_begin(text, c);
        let len: usize = find_line_finish(text, next) - next;
        let target: usize = if col <= len { next + col } else { next + len };
        floor_boundary(text, target)
    } else {
        c
    }
}

/// To the line above.
pub fn move_up(text: &str, offset: usize) -> (r: usize)
    ensures
        r == spec_up(text.spec_bytes(), char_start(text.spec_bytes(), offset as int)),
        on_boundary(text.spec_bytes(), r as int),
{
    let c = floor_boundary(text, offset);
    let begin = find_line_begin(text, c);
    if begin > 0 {
        let prev = find_line_begin(text, begin - 1);
        let col: usize = c - begin;
        let len: usize = begin - 1 - prev;
        let target: usize = if col <= len { prev + col } else { prev + len };
        floor_boundary(text, target)
    } else {
        c
    }
}

/// To the beginning of the last line.
pub fn move_last_line(text: &str) -> (r: usize)
    ensures
        r == line_begin(text.spec_bytes(), text.spec_bytes().len() as int),
        on_boundary(text.spec_bytes(), r as int),
{
    find_line_begin(text, byte_len(text))
}

} // verus!
