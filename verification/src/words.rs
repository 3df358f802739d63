//! Word motions over UTF-8 text.
//!
//! A word is a stretch of letters, digits and `_`; a stretch of other
//! characters that are not white space counts as a word of its own. Offsets
//! are byte offsets; an offset inside a character stands for that character.

use vstd::prelude::*;
use vstd::string::*;
use vstd::utf8::*;
use crate::chars::{
    belongs_to, byte_len, char_at, char_start, char_width, floor_boundary, in_run, is_word, is_word_char,
    lemma_char_covers, lemma_char_extent, lemma_char_start, lemma_char_start_le, lemma_text_valid,
    on_boundary, spec_char_at, whitespace, width_at, Run,
};

verus! {

/// The first character boundary at or behind `i` whose character is not of
/// kind `run`, or the end of the text.
pub open spec fn skip_run(b: Seq<u8>, i: int, run: Run) -> int
    decreases b.len() - i,
{
    if i >= b.len() {
        b.len() as int
    } else if on_boundary(b, i) && !in_run(run, spec_char_at(b, i)) {
        i
    } else {
        skip_run(b, i + 1, run)
    }
}

/// Where a forward word motion from `offset` ends: behind the word or the
/// stretch of punctuation that holds the character at `offset`, and behind the
/// white space that follows. At or past the end of the text nothing moves.
pub open spec fn spec_word_forward(b: Seq<u8>, offset: int) -> int {
    if offset >= b.len() {
        offset
    } else {
        let s = char_start(b, offset);
        let c = spec_char_at(b, s);
        let j = if is_word_char(c) {
            skip_run(b, s, Run::Word)
        } else if !whitespace(c) {
            skip_run(b, s, Run::Punct)
        } else {
            s
        };
        skip_run(b, j, Run::Space)
    }
}

/// Going back from the boundary `p` over white space: the nearest character at
/// or before `p` that is not white space, or offset 0.
pub open spec fn skip_space_back(b: Seq<u8>, p: int) -> int
    decreases p,
{
    if p <= 0 {
        0
    } else if !whitespace(spec_char_at(b, p)) {
        p
    } else {
        proof {
            lemma_char_start_le(b, p - 1);
        }
        skip_space_back(b, char_start(b, p - 1))
    }
}

/// Going back from the boundary `p` while the character before it is no white
/// space and is part of a word exactly if `in_word` says so.
pub open spec fn run_begin(b: Seq<u8>, p: int, in_word: bool) -> int
    decreases p,
{
    if p <= 0 {
        0
    } else {
        let q = char_start(b, p - 1);
        let c = spec_char_at(b, q);
        if is_word_char(c) != in_word || whitespace(c) {
            p
        } else {
            proof {
                lemma_char_start_le(b, p - 1);
            }
            run_begin(b, q, in_word)
        }
    }
}

/// Where a backward word motion from `offset` ends: one character back, then
/// back over white space, then at the beginning of the word or stretch of
/// punctuation reached. An offset past the end of the text moves back by one.
pub open spec fn spec_word_backward(b: Seq<u8>, offset: int) -> int {
    if offset <= 0 {
        0
    } else if offset > b.len() {
        offset - 1
    } else {
        let p = skip_space_back(b, char_start(b, offset - 1));
        let c = spec_char_at(b, p);
        if whitespace(c) {
            p
        } else {
            run_begin(b, p, is_word_char(c))
        }
    }
}

/// `skip_run` stops inside the text, not before where it began, at the end or
/// at a character that is not of the kind.
pub proof fn lemma_skip_run(b: Seq<u8>, i: int, run: Run)
    requires
        valid_utf8(b),
        0 <= i <= b.len(),
    ensures
        i <= skip_run(b, i, run) <= b.len(),
        on_boundary(b, skip_run(b, i, run)),
        skip_run(b, i, run) == b.len() || !in_run(run, spec_char_at(b, skip_run(b, i, run))),
    decreases b.len() - i,
{
    if i >= b.len() {
        lemma_char_start(b, i);
    } else if !(on_boundary(b, i) && !in_run(run, spec_char_at(b, i))) {
        lemma_skip_run(b, i + 1, run);
    }
}

/// Passing over one character of the kind does not change where `skip_run`
/// stops.
pub proof fn lemma_skip_step(b: Seq<u8>, i: int, run: Run)
    requires
        valid_utf8(b),
        on_boundary(b, i),
        i < b.len(),
        in_run(run, spec_char_at(b, i)),
    ensures
        skip_run(b, i, run) == skip_run(b, i + char_width(b, i), run),
{
    lemma_char_extent(b, i);
    let w = char_width(b, i);
    assert(skip_run(b, i, run) == skip_run(b, i + 1, run));
    if w >= 2 {
        assert(!on_boundary(b, i + 1));
        assert(skip_run(b, i + 1, run) == skip_run(b, i + 2, run));
    }
    if w >= 3 {
        assert(!on_boundary(b, i + 2));
        assert(skip_run(b, i + 2, run) == skip_run(b, i + 3, run));
    }
    if w >= 4 {
        assert(!on_boundary(b, i + 3));
        assert(skip_run(b, i + 3, run) == skip_run(b, i + 4, run));
    }
}

/// A forward word motion inside the text moves ahead, to a boundary that is not
/// behind the end.
pub proof fn lemma_word_forward(b: Seq<u8>, offset: int)
    requires
        valid_utf8(b),
        0 <= offset < b.len(),
    ensures
        offset < spec_word_forward(b, offset) <= b.len(),
        on_boundary(b, spec_word_forward(b, offset)),
{
    let s = char_start(b, offset);
    lemma_char_covers(b, offset);
    lemma_char_start(b, offset);
    lemma_char_extent(b, s);
    let c = spec_char_at(b, s);
    let after = s + char_width(b, s);
    if is_word_char(c) {
        lemma_skip_step(b, s, Run::Word);
        lemma_skip_run(b, after, Run::Word);
        lemma_skip_run(b, skip_run(b, s, Run::Word), Run::Space);
    } else if !whitespace(c) {
        lemma_skip_step(b, s, Run::Punct);
        lemma_skip_run(b, after, Run::Punct);
        lemma_skip_run(b, skip_run(b, s, Run::Punct), Run::Space);
    } else {
        lemma_skip_step(b, s, Run::Space);
        lemma_skip_run(b, after, Run::Space);
    }
}

/// Going back over white space from a boundary ends at a boundary that is not
/// behind it, and inside the text where it began there.
pub proof fn lemma_skip_space_back(b: Seq<u8>, p: int)
    requires
        valid_utf8(b),
        on_boundary(b, p),
    ensures
        0 <= skip_space_back(b, p) <= p,
        on_boundary(b, skip_space_back(b, p)),
        p < b.len() ==> skip_space_back(b, p) < b.len(),
    decreases p,
{
    if p <= 0 {
        lemma_char_start(b, 0);
    } else if whitespace(spec_char_at(b, p)) {
        lemma_char_start(b, p - 1);
        lemma_skip_space_back(b, char_start(b, p - 1));
    }
}

/// Going back over a stretch from a boundary ends at a boundary that is not
/// behind it.
pub proof fn lemma_run_begin(b: Seq<u8>, p: int, in_word: bool)
    requires
        valid_utf8(b),
        on_boundary(b, p),
    ensures
        0 <= run_begin(b, p, in_word) <= p,
        on_boundary(b, run_begin(b, p, in_word)),
    decreases p,
{
    if p <= 0 {
        lemma_char_start(b, 0);
    } else {
        let q = char_start(b, p - 1);
        let c = spec_char_at(b, q);
        lemma_char_start(b, p - 1);
        if !(is_word_char(c) != in_word || whitespace(c)) {
            lemma_run_begin(b, q, in_word);
        }
    }
}

/// A backward word motion from inside the text moves back, to a boundary.
pub proof fn lemma_word_backward(b: Seq<u8>, offset: int)
    requires
        valid_utf8(b),
        0 < offset <= b.len(),
    ensures
        0 <= spec_word_backward(b, offset) < offset,
        on_boundary(b, spec_word_backward(b, offset)),
{
    let first = char_start(b, offset - 1);
    lemma_char_start(b, offset - 1);
    lemma_skip_space_back(b, first);
    let p = skip_space_back(b, first);
    let c = spec_char_at(b, p);
    if !whitespace(c) {
        lemma_run_begin(b, p, is_word_char(c));
    }
}

/// The offset reached from `offset` by `times` forward word motions.
pub open spec fn word_forward_times(b: Seq<u8>, offset: int, times: nat) -> int
    decreases times,
{
    if times == 0 {
        offset
    } else {
        spec_word_forward(b, word_forward_times(b, offset, (times - 1) as nat))
    }
}

/// The offset reached from `offset` by `times` backward word motions.
pub open spec fn word_backward_times(b: Seq<u8>, offset: int, times: nat) -> int
    decreases times,
{
    if times == 0 {
        offset
    } else {
        spec_word_backward(b, word_backward_times(b, offset, (times - 1) as nat))
    }
}

/// A forward word motion never moves back, and inside the text it moves ahead
/// without passing the end.
pub proof fn law_word_forward_advances(text: &str, offset: nat)
    ensures
        offset <= spec_word_forward(text.spec_bytes(), offset as int),
        offset < text.spec_bytes().len() ==> offset < spec_word_forward(
            text.spec_bytes(),
            offset as int,
        ) <= text.spec_bytes().len(),
{
    lemma_text_valid(text);
    if offset < text.spec_bytes().len() {
        lemma_word_forward(text.spec_bytes(), offset as int);
    }
}

/// Forward word motions repeated from an offset inside the text never move
/// back, and after as many of them as there are bytes left they stand at the
/// end of the text, where they stay.
pub proof fn law_word_forward_reaches_end(text: &str, offset: nat, times: nat)
    requires
        offset <= text.spec_bytes().len(),
    ensures
        ({
            let b = text.spec_bytes();
            let here = word_forward_times(b, offset as int, times);
            let next = word_forward_times(b, offset as int, times + 1);
            &&& offset <= here <= next <= b.len()
            &&& here >= offset + times || here == b.len()
            &&& times >= b.len() - offset ==> here == b.len()
        }),
    decreases times,
{
    let b = text.spec_bytes();
    lemma_text_valid(text);
    if times > 0 {
        law_word_forward_reaches_end(text, offset, (times - 1) as nat);
    }
    let here = word_forward_times(b, offset as int, times);
    if here < b.len() {
        lemma_word_forward(b, here);
    }
}

/// A backward word motion never moves ahead, and behind offset 0 it moves back.
pub proof fn law_word_backward_retreats(text: &str, offset: nat)
    ensures
        0 <= spec_word_backward(text.spec_bytes(), offset as int) <= offset,
        offset > 0 ==> spec_word_backward(text.spec_bytes(), offset as int) < offset,
{
    lemma_text_valid(text);
    if 0 < offset <= text.spec_bytes().len() {
        lemma_word_backward(text.spec_bytes(), offset as int);
    }
}

/// Backward word motions repeated from any offset never move ahead, and after
/// as many of them as the offset counts they stand at offset 0, where they
/// stay.
pub proof fn law_word_backward_reaches_start(text: &str, offset: nat, times: nat)
    ensures
        ({
            let b = text.spec_bytes();
            let here = word_backward_times(b, offset as int, times);
            let next = word_backward_times(b, offset as int, times + 1);
            &&& 0 <= next <= here <= offset
            &&& here <= offset - times || here == 0
            &&& times >= offset ==> here == 0
        }),
    decreases times,
{
    let b = text.spec_bytes();
    if times > 0 {
        law_word_backward_reaches_start(text, offset, (times - 1) as nat);
    }
    let here = word_backward_times(b, offset as int, times);
    law_word_backward_retreats(text, here as nat);
}

/// Passes over the characters of kind `run` that begin at the boundary `from`.
pub(crate) fn skip_forward(text: &str, from: usize, run: Run) -> (r: usize)
    requires
        on_boundary(text.spec_bytes(), from as int),
    ensures
        r == skip_run(text.spec_bytes(), from as int, run),
        from <= r <= text.spec_bytes().len(),
        on_boundary(text.spec_bytes(), r as int),
{
    let n: usize = byte_len(text);
    let mut i: usize = from;
    proof {
        lemma_text_valid(text);
    }
    while i < n
        invariant
            n == text.spec_bytes().len(),
            valid_utf8(text.spec_bytes()),
            from <= i <= n,
            on_boundary(text.spec_bytes(), i as int),
            skip_run(text.spec_bytes(), i as int, run) == skip_run(
                text.spec_bytes(),
                from as int,
                run,
            ),
        decreases n - i,
    {
        let c = char_at(text, i);
        if !belongs_to(run, c) {
            return i;
        }
        proof {
            lemma_skip_step(text.spec_bytes(), i as int, run);
        }
        i = i + width_at(text, i);
    }
    i
}

/// The offset behind the word at `offset` and the white space that follows it.
pub fn word_forward(text: &str, offset: usize) -> (r: usize)
    ensures
        r == spec_word_forward(text.spec_bytes(), offset as int),
{
    let n: usize = byte_len(text);
    if offset >= n {
        return offset;
    }
    let s = floor_boundary(text, offset);
    proof {
        lemma_text_valid(text);
        lemma_char_covers(text.spec_bytes(), offset as int);
    }
    let c = char_at(text, s);
    let j = if is_word(c) {
        skip_forward(text, s, Run::Word)
    } else if !c.is_whitespace() {
        skip_forward(text, s, Run::Punct)
    } else {
        s
    };
    skip_forward(text, j, Run::Space)
}

/// The offset of the beginning of the word before `offset`.
pub fn word_backward(text: &str, offset: usize) -> (r: usize)
    ensures
        r == spec_word_backward(text.spec_bytes(), offset as int),
{
    let n: usize = byte_len(text);
    if offset == 0 {
        return 0;
    }
    if offset > n {
        return offset - 1;
    }
    proof {
        lemma_text_valid(text);
    }
    let ghost b = text.spec_bytes();
    let first = floor_boundary(text, offset - 1);
    let mut p: usize = first;
    while p > 0 && char_at(text, p).is_whitespace()
        invariant
            b == text.spec_bytes(),
            valid_utf8(b),
            n == b.len(),
            p < n,
            on_boundary(b, p as int),
            skip_space_back(b, p as int) == skip_space_back(b, first as int),
        decreases p,
    {
        proof {
            lemma_char_start(b, p - 1);
        }
        p = floor_boundary(text, p - 1);
    }
    let c = char_at(text, p);
    if c.is_whitespace() {
        return p;
    }
    let in_word = is_word(c);
    while p > 0
        invariant
            b == text.spec_bytes(),
            valid_utf8(b),
            n == b.len(),
            p < n,
            on_boundary(b, p as int),
            run_begin(b, p as int, in_word) == spec_word_backward(b, offset as int),
        decreases p,
    {
        proof {
            lemma_char_start(b, p - 1);
        }
        let q = floor_boundary(text, p - 1);
        let prev = char_at(text, q);
        if is_word(prev) != in_word || prev.is_whitespace() {
            return p;
        }
        p = q;
    }
    p
}

} // verus!
