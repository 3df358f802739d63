//! Characters inside UTF-8 text: where they begin, how wide they are, and
//! which class they belong to.

use vstd::prelude::*;
use vstd::string::*;
use vstd::utf8::*;

verus! {

/// What `char::is_alphanumeric` answers for `c`: whether `c` is a letter or a
/// digit in the sense of Unicode.
pub uninterp spec fn alphanumeric(c: char) -> bool;

/// What `char::is_whitespace` answers for `c`: whether `c` is white space in
/// the sense of Unicode.
pub uninterp spec fn whitespace(c: char) -> bool;

/// `char::is_alphanumeric` of std. It depends on the character alone; its
/// answer is given the name [`alphanumeric`], and nothing more is claimed.
pub assume_specification[ char::is_alphanumeric ](c: char) -> (r: bool)
    ensures
        r == alphanumeric(c),
;

/// `char::is_whitespace` of std. It depends on the character alone; its
/// answer is given the name [`whitespace`], and nothing more is claimed.
pub assume_specification[ char::is_whitespace ](c: char) -> (r: bool)
    ensures
        r == whitespace(c),
;

/// A character that can be part of a word: a letter, a digit or `_`.
pub open spec fn is_word_char(c: char) -> bool {
    alphanumeric(c) || c == '_'
}

/// A character that is neither part of a word nor white space.
pub open spec fn is_punct_char(c: char) -> bool {
    !whitespace(c) && !is_word_char(c)
}

/// The kinds of stretches that a word motion passes over.
#[derive(Clone, Copy, PartialEq, Eq, Structural, Debug)]
pub enum Run {
    /// Letters, digits and `_`.
    Word,
    /// Characters that are neither white space nor part of a word.
    Punct,
    /// White space.
    Space,
    /// Characters that are not white space.
    Solid,
}

/// Whether `c` belongs to a stretch of kind `run`.
pub open spec fn in_run(run: Run, c: char) -> bool {
    match run {
        Run::Word => is_word_char(c),
        Run::Punct => is_punct_char(c),
        Run::Space => whitespace(c),
        Run::Solid => !whitespace(c),
    }
}

/// Whether offset `i` is the first byte of a character of `b`, or its end.
pub open spec fn on_boundary(b: Seq<u8>, i: int) -> bool {
    0 <= i <= b.len() && (i == b.len() || !is_continuation_byte(b[i]))
}

/// The first byte of the character that holds offset `i`: the nearest
/// character boundary at or before `i`.
pub open spec fn char_start(b: Seq<u8>, i: int) -> int
    decreases i,
{
    if i <= 0 {
        0
    } else if i >= b.len() {
        b.len() as int
    } else if !is_continuation_byte(b[i]) {
        i
    } else {
        char_start(b, i - 1)
    }
}

/// The bytes of `b` from offset `i` on.
pub open spec fn tail_from(b: Seq<u8>, i: int) -> Seq<u8> {
    b.subrange(i, b.len() as int)
}

/// The character that begins at the boundary `i`.
pub open spec fn spec_char_at(b: Seq<u8>, i: int) -> char {
    decode_first_scalar(tail_from(b, i)) as char
}

/// The number of bytes of the character that begins at the boundary `i`.
pub open spec fn char_width(b: Seq<u8>, i: int) -> int {
    length_of_first_scalar(tail_from(b, i))
}

/// The UTF-8 bytes of a sequence of characters.
pub open spec fn utf8(chars: Seq<char>) -> Seq<u8> {
    encode_utf8(chars)
}

/// The bytes of a string slice are valid UTF-8.
pub proof fn lemma_text_valid(text: &str)
    ensures
        valid_utf8(text.spec_bytes()),
{
    encode_utf8_valid_utf8(text@);
}

/// In valid UTF-8 the character boundaries are the offsets that hold no
/// continuation byte, and the end.
pub proof fn lemma_boundary_iff(b: Seq<u8>, i: int)
    requires
        valid_utf8(b),
    ensures
        on_boundary(b, i) <==> is_char_boundary(b, i),
{
    if 0 <= i < b.len() {
        is_char_boundary_iff_not_is_continuation_byte(b, i);
    } else if i == b.len() {
        is_char_boundary_start_end_of_seq(b);
    }
}

/// A character that begins at `i` lies inside the text, its later bytes are
/// continuation bytes, and the next character boundary stands right behind it.
pub proof fn lemma_char_extent(b: Seq<u8>, i: int)
    requires
        valid_utf8(b),
        on_boundary(b, i),
        i < b.len(),
    ensures
        1 <= char_width(b, i) <= 4,
        i + char_width(b, i) <= b.len(),
        on_boundary(b, i + char_width(b, i)),
        forall|k: int| i < k < i + char_width(b, i) ==> !on_boundary(b, k),
        char_width(b, i) == (if b[i] <= 0x7f {
            1int
        } else if b[i] <= 0xdf {
            2int
        } else if b[i] <= 0xef {
            3int
        } else {
            4int
        }),
{
    lemma_boundary_iff(b, i);
    valid_utf8_split(b, i);
    let sub = tail_from(b, i);
    assert(sub.len() > 0);
    assert(valid_first_scalar(sub));
    assert(sub[0] == b[i]);
    let w = length_of_first_scalar(sub);
    let rest = pop_first_scalar(sub);
    assert(valid_utf8(rest));
    assert forall|k: int| i < k < i + w implies !on_boundary(b, k) by {
        assert(sub[k - i] == b[k]);
    }
    if rest.len() > 0 {
        assert(valid_first_scalar(rest));
        assert(rest[0] == b[i + w]);
    }
}

/// The start of the character that holds `i` is the nearest boundary at or
/// before `i`.
pub proof fn lemma_char_start(b: Seq<u8>, i: int)
    requires
        valid_utf8(b),
        0 <= i <= b.len(),
    ensures
        0 <= char_start(b, i) <= i,
        on_boundary(b, char_start(b, i)),
        forall|k: int| char_start(b, i) < k <= i ==> !on_boundary(b, k),
        on_boundary(b, i) ==> char_start(b, i) == i,
    decreases i,
{
    if i <= 0 {
        lemma_boundary_iff(b, 0);
    } else if i < b.len() && is_continuation_byte(b[i]) {
        lemma_char_start(b, i - 1);
    }
}

/// The start of the character that holds `i` is never behind `i`, nor behind
/// the end of the text.
pub proof fn lemma_char_start_le(b: Seq<u8>, i: int)
    requires
        0 <= i,
    ensures
        0 <= char_start(b, i) <= i,
        char_start(b, i) <= b.len(),
    decreases i,
{
    if 0 < i < b.len() && is_continuation_byte(b[i]) {
        lemma_char_start_le(b, i - 1);
    }
}

/// The start of the character that holds any offset is a character boundary
/// inside the text.
pub proof fn lemma_char_start_any(b: Seq<u8>, i: int)
    requires
        valid_utf8(b),
        0 <= i,
    ensures
        0 <= char_start(b, i) <= i,
        char_start(b, i) <= b.len(),
        on_boundary(b, char_start(b, i)),
{
    if i <= b.len() {
        lemma_char_start(b, i);
    }
}

/// An offset inside a character lies before the end of that character.
pub proof fn lemma_char_covers(b: Seq<u8>, i: int)
    requires
        valid_utf8(b),
        0 <= i < b.len(),
    ensures
        char_start(b, i) < b.len(),
        i < char_start(b, i) + char_width(b, char_start(b, i)),
{
    lemma_char_start(b, i);
    lemma_char_extent(b, char_start(b, i));
}

/// The bytes of two joined sequences of characters are the joined bytes.
pub proof fn lemma_utf8_concat(x: Seq<char>, y: Seq<char>)
    ensures
        utf8(x + y) == utf8(x) + utf8(y),
    decreases x.len(),
{
    if x.len() == 0 {
        assert(x + y =~= y);
        assert(utf8(x) + utf8(y) =~= utf8(y));
    } else {
        lemma_utf8_concat(x.drop_first(), y);
        assert((x + y).drop_first() =~= x.drop_first() + y);
        assert(utf8(x + y) =~= utf8(x) + utf8(y));
    }
}

/// Two sequences of characters with the same bytes are the same.
pub proof fn lemma_utf8_injective(x: Seq<char>, y: Seq<char>)
    requires
        utf8(x) == utf8(y),
    ensures
        x == y,
{
    encode_utf8_decode_utf8(x);
    encode_utf8_decode_utf8(y);
}

/// Valid UTF-8 begins at a character boundary.
pub proof fn lemma_boundary_zero(b: Seq<u8>)
    requires
        valid_utf8(b),
    ensures
        on_boundary(b, 0),
{
    lemma_boundary_iff(b, 0);
}

/// Two valid texts joined are valid; the place where they meet and every
/// boundary of either part is a boundary of the whole.
pub proof fn lemma_boundary_concat(x: Seq<u8>, y: Seq<u8>)
    requires
        valid_utf8(x),
        valid_utf8(y),
    ensures
        valid_utf8(x + y),
        on_boundary(x + y, x.len() as int),
        forall|i: int| on_boundary(x, i) ==> on_boundary(x + y, i),
        forall|i: int| on_boundary(y, i) ==> on_boundary(x + y, x.len() + i),
{
    valid_utf8_concat(x, y);
    lemma_boundary_zero(y);
    assert forall|i: int| on_boundary(x, i) implies on_boundary(x + y, i) by {
        if i < x.len() {
            assert((x + y)[i] == x[i]);
        }
    }
    assert forall|i: int| on_boundary(y, i) implies on_boundary(x + y, x.len() + i) by {
        if i < y.len() {
            assert((x + y)[x.len() + i] == y[i]);
        }
    }
}

/// The stretch between two boundaries of a valid text is valid.
pub proof fn lemma_valid_between(b: Seq<u8>, from: int, to: int)
    requires
        valid_utf8(b),
        on_boundary(b, from),
        on_boundary(b, to),
        from <= to,
    ensures
        valid_utf8(b.subrange(from, to)),
        valid_utf8(b.subrange(0, from)),
        valid_utf8(b.subrange(to, b.len() as int)),
{
    lemma_boundary_iff(b, from);
    lemma_boundary_iff(b, to);
    valid_utf8_split(b, to);
    valid_utf8_split(b, from);
    let head = b.subrange(0, to);
    assert(on_boundary(head, from)) by {
        if from < to {
            assert(head[from] == b[from]);
        }
    }
    lemma_boundary_iff(head, from);
    valid_utf8_split(head, from);
    assert(head.subrange(from, head.len() as int) =~= b.subrange(from, to));
}

/// The byte behind a byte below 128 is a character boundary.
pub proof fn lemma_boundary_after_ascii(b: Seq<u8>, i: int)
    requires
        valid_utf8(b),
        0 <= i < b.len(),
        b[i] <= 0x7f,
    ensures
        on_boundary(b, i),
        on_boundary(b, i + 1),
{
    lemma_char_extent(b, i);
}

/// The length of `text` in bytes.
pub fn byte_len(text: &str) -> (n: usize)
    ensures
        n == text.spec_bytes().len(),
{
    text.as_bytes().len()
}

/// Whether `c` is a letter, a digit or `_`.
pub fn is_word(c: char) -> (r: bool)
    ensures
        r == is_word_char(c),
{
    c.is_alphanumeric() || c == '_'
}

/// Whether `c` belongs to a stretch of kind `run`.
pub fn belongs_to(run: Run, c: char) -> (r: bool)
    ensures
        r == in_run(run, c),
{
    match run {
        Run::Word => is_word(c),
        Run::Punct => !c.is_whitespace() && !is_word(c),
        Run::Space => c.is_whitespace(),
        Run::Solid => !c.is_whitespace(),
    }
}

/// The character of `text` that begins at the boundary `i`.
pub(crate) fn char_at(text: &str, i: usize) -> (c: char)
    requires
        i < text.spec_bytes().len(),
        on_boundary(text.spec_bytes(), i as int),
    ensures
        c == spec_char_at(text.spec_bytes(), i as int),
{
    broadcast use vstd::string::group_string_axioms;

    proof {
        lemma_text_valid(text);
        lemma_boundary_iff(text.spec_bytes(), i as int);
    }
    let (_, tail) = text.split_at(i);
    let mut rest = tail.chars();
    let first = rest.next();
    proof {
        assert(tail.spec_bytes().len() > 0);
        assert(tail@.len() > 0);
        encode_utf8_first_scalar(tail@);
        char_u32_cast(tail@[0], decode_first_scalar(tail.spec_bytes()));
    }
    match first {
        Some(c) => c,
        None => ' ',
    }
}

/// The width in bytes of the character of `text` that begins at the boundary
/// `i`.
pub(crate) fn width_at(text: &str, i: usize) -> (w: usize)
    requires
        i < text.spec_bytes().len(),
        on_boundary(text.spec_bytes(), i as int),
    ensures
        w == char_width(text.spec_bytes(), i as int),
        1 <= w <= 4,
        i + w <= text.spec_bytes().len(),
        on_boundary(text.spec_bytes(), i + w),
{
    proof {
        lemma_text_valid(text);
        lemma_char_extent(text.spec_bytes(), i as int);
    }
    let lead: u8 = text.as_bytes()[i];
    if lead <= 0x7f {
        1
    } else if lead <= 0xdf {
        2
    } else if lead <= 0xef {
        3
    } else {
        4
    }
}

/// The nearest character boundary of `text` at or before `i`.
pub fn floor_boundary(text: &str, i: usize) -> (r: usize)
    ensures
        r == char_start(text.spec_bytes(), i as int),
        on_boundary(text.spec_bytes(), r as int),
        r <= i,
{
    proof {
        lemma_text_valid(text);
    }
    let b = text.as_bytes();
    let n: usize = b.len();
    if i >= n {
        proof {
            lemma_boundary_iff(b@, n as int);
        }
        return n;
    }
    let mut j: usize = i;
    while j > 0 && 0x80 <= b[j] && b[j] <= 0xbf
        invariant
            b@ == text.spec_bytes(),
            n == b@.len(),
            j <= i < n,
            char_start(b@, j as int) == char_start(b@, i as int),
        decreases j,
    {
        j = j - 1;
    }
    proof {
        lemma_char_start(b@, j as int);
    }
    j
}

/// The part of `text` between the boundaries `from` and `to`.
pub(crate) fn slice(text: &str, from: usize, to: usize) -> (r: &str)
    requires
        from <= to,
        on_boundary(text.spec_bytes(), from as int),
        on_boundary(text.spec_bytes(), to as int),
    ensures
        r.spec_bytes() == text.spec_bytes().subrange(from as int, to as int),
{
    proof {
        lemma_text_valid(text);
        lemma_boundary_iff(text.spec_bytes(), to as int);
    }
    let (head, _) = text.split_at(to);
    proof {
        lemma_text_valid(head);
        assert(on_boundary(head.spec_bytes(), from as int)) by {
            if from < to {
                assert(head.spec_bytes()[from as int] == text.spec_bytes()[from as int]);
            }
        }
        lemma_boundary_iff(head.spec_bytes(), from as int);
    }
    let (_, mid) = head.split_at(from);
    proof {
        assert(mid.spec_bytes() =~= text.spec_bytes().subrange(from as int, to as int));
    }
    mid
}

/// Whether two string slices hold the same characters.
pub fn str_eq(x: &str, y: &str) -> (r: bool)
    ensures
        r == (x@ == y@),
        r == (x.spec_bytes() == y.spec_bytes()),
{
    let a = x.as_bytes();
    let b = y.as_bytes();
    if a.len() != b.len() {
        return false;
    }
    let mut i: usize = 0;
    while i < a.len()
        invariant
            a@ == x.spec_bytes(),
            b@ == y.spec_bytes(),
            a@.len() == b@.len(),
            i <= a@.len(),
            forall|j: int| 0 <= j < i ==> a@[j] == b@[j],
        decreases a@.len() - i,
    {
        if a[i] != b[i] {
            return false;
        }
        i = i + 1;
    }
    proof {
        assert(a@ =~= b@);
        lemma_utf8_injective(x@, y@);
    }
    true
}

} // verus!
