//! Positions in text: lines and columns, character boundaries, word motions.
//!
//! Text is modelled by its UTF-8 bytes. A line break is the byte `\n`; the
//! lines of a text are the stretches between line breaks, so a text with `k`
//! line breaks has `k + 1` lines and the empty text has one empty line.

use vstd::prelude::*;
use vstd::string::*;
use vstd::utf8::*;

verus! {

/// The byte that separates two lines.
pub const LINE_BREAK: u8 = 10;

/// How many line breaks stand among the first `n` bytes of `b`.
pub open spec fn breaks_before(b: Seq<u8>, n: int) -> nat
    decreases n,
{
    if n <= 0 {
        0
    } else if n <= b.len() && b[n - 1] == LINE_BREAK {
        breaks_before(b, n - 1) + 1
    } else {
        breaks_before(b, n - 1)
    }
}

/// Where the line that holds offset `n` begins: just behind the last line
/// break before `n`, or at 0.
pub open spec fn line_begin(b: Seq<u8>, n: int) -> int
    decreases n,
{
    if n <= 0 {
        0
    } else if n <= b.len() && b[n - 1] == LINE_BREAK {
        n
    } else {
        line_begin(b, n - 1)
    }
}

/// Where the line that holds offset `n` ends: at the first line break at or
/// behind `n`, or at the end of the text.
pub open spec fn line_finish(b: Seq<u8>, n: int) -> int
    decreases b.len() - n,
{
    if n >= b.len() {
        b.len() as int
    } else if n >= 0 && b[n] == LINE_BREAK {
        n
    } else {
        line_finish(b, n + 1)
    }
}

/// The number of lines of `b`.
pub open spec fn line_count(b: Seq<u8>) -> nat {
    breaks_before(b, b.len() as int) + 1
}

/// The offset at which line `k` begins. For a `k` past the last line this is
/// one more than the length of the text.
pub open spec fn line_start(b: Seq<u8>, k: nat) -> int
    decreases k,
{
    if k == 0 {
        0
    } else {
        line_finish(b, line_start(b, (k - 1) as nat)) + 1
    }
}

/// The length of line `k`, without its line break.
pub open spec fn line_len(b: Seq<u8>, k: nat) -> int {
    line_finish(b, line_start(b, k)) - line_start(b, k)
}

/// Line and column of an offset. An offset at a line break belongs to the line
/// that the break ends, as its last column. An offset past the end of the text
/// is put at the start of the last line.
pub open spec fn spec_offset_to_line_col(b: Seq<u8>, offset: int) -> (nat, nat) {
    if offset <= b.len() {
        (breaks_before(b, offset), (offset - line_begin(b, offset)) as nat)
    } else {
        ((line_count(b) - 1) as nat, 0)
    }
}

/// The offset of a line and column. A line past the last one gives one more
/// than the length of the text, whatever the column.
pub open spec fn spec_line_col_to_offset(b: Seq<u8>, line: nat, col: nat) -> int {
    if line < line_count(b) {
        line_start(b, line) + col
    } else {
        (b.len() + 1) as int
    }
}

/// `n`, or the largest `usize` where `n` does not fit.
pub open spec fn saturate(n: int) -> usize {
    if n <= usize::MAX {
        n as usize
    } else {
        usize::MAX
    }
}

/// Further into the text there are no fewer line breaks behind.
pub proof fn lemma_breaks_monotone(b: Seq<u8>, m: int, n: int)
    requires
        m <= n,
    ensures
        breaks_before(b, m) <= breaks_before(b, n),
    decreases n - m,
{
    if m < n {
        lemma_breaks_monotone(b, m, n - 1);
    }
}

/// The line that holds `n` begins at or before `n`, and holds no line break
/// between its beginning and `n`.
pub proof fn lemma_line_begin(b: Seq<u8>, n: int)
    requires
        0 <= n <= b.len(),
    ensures
        0 <= line_begin(b, n) <= n,
        line_begin(b, n) == 0 || b[line_begin(b, n) - 1] == LINE_BREAK,
        forall|j: int| line_begin(b, n) <= j < n ==> b[j] != LINE_BREAK,
        breaks_before(b, line_begin(b, n)) == breaks_before(b, n),
    decreases n,
{
    if n > 0 && b[n - 1] != LINE_BREAK {
        lemma_line_begin(b, n - 1);
    }
}

/// The line that holds `n` ends at or behind `n`, at a line break or at the
/// end of the text, and holds no line break between `n` and its end.
pub proof fn lemma_line_finish(b: Seq<u8>, n: int)
    requires
        0 <= n <= b.len(),
    ensures
        n <= line_finish(b, n) <= b.len(),
        line_finish(b, n) == b.len() || b[line_finish(b, n)] == LINE_BREAK,
        forall|j: int| n <= j < line_finish(b, n) ==> b[j] != LINE_BREAK,
    decreases b.len() - n,
{
    if n < b.len() && b[n] != LINE_BREAK {
        lemma_line_finish(b, n + 1);
    }
}

/// A stretch without line breaks that stops at a line break, or at the end of
/// the text, is the rest of a line.
pub proof fn lemma_line_finish_is(b: Seq<u8>, s: int, e: int)
    requires
        0 <= s <= e <= b.len(),
        forall|j: int| s <= j < e ==> b[j] != LINE_BREAK,
        e == b.len() || b[e] == LINE_BREAK,
    ensures
        line_finish(b, s) == e,
    decreases e - s,
{
    if s < e {
        lemma_line_finish_is(b, s + 1, e);
    }
}

/// The line that holds `n` is the line whose number is the count of line
/// breaks before `n`.
pub proof fn lemma_line_start_of_offset(b: Seq<u8>, n: int)
    requires
        0 <= n <= b.len(),
    ensures
        line_start(b, breaks_before(b, n)) == line_begin(b, n),
        breaks_before(b, n) < line_count(b),
    decreases n,
{
    lemma_breaks_monotone(b, n, b.len() as int);
    if n > 0 {
        lemma_line_start_of_offset(b, n - 1);
        if b[n - 1] == LINE_BREAK {
            lemma_line_begin(b, n - 1);
            lemma_line_finish_is(b, line_begin(b, n - 1), n - 1);
        }
    }
}

/// Over a stretch without line breaks the count of line breaks stays.
pub proof fn lemma_no_breaks_between(b: Seq<u8>, s: int, e: int)
    requires
        0 <= s <= e <= b.len(),
        forall|j: int| s <= j < e ==> b[j] != LINE_BREAK,
    ensures
        breaks_before(b, e) == breaks_before(b, s),
    decreases e - s,
{
    if s < e {
        lemma_no_breaks_between(b, s, e - 1);
    }
}

/// Every line that exists begins inside the text, behind a line break or at 0,
/// and is the line of its own first offset.
pub proof fn lemma_line_start(b: Seq<u8>, k: nat)
    requires
        k < line_count(b),
    ensures
        0 <= line_start(b, k) <= b.len(),
        breaks_before(b, line_start(b, k)) == k,
        line_begin(b, line_start(b, k)) == line_start(b, k),
        k > 0 ==> b[line_start(b, k) - 1] == LINE_BREAK,
    decreases k,
{
    if k > 0 {
        let p = line_start(b, (k - 1) as nat);
        lemma_line_start(b, (k - 1) as nat);
        lemma_line_finish(b, p);
        let e = line_finish(b, p);
        lemma_no_breaks_between(b, p, e);
        if e == b.len() {
            // then no line break stands behind line k - 1, so it is the last line
            assert(breaks_before(b, b.len() as int) == k - 1);
            assert(false);
        }
    }
}

/// The count of line breaks before an offset does not depend on what stands at
/// or behind the offset.
pub proof fn lemma_breaks_of_prefix(b: Seq<u8>, m: int, n: int)
    requires
        0 <= n <= m <= b.len(),
    ensures
        breaks_before(b.subrange(0, m), n) == breaks_before(b, n),
    decreases n,
{
    if n > 0 {
        lemma_breaks_of_prefix(b, m, n - 1);
    }
}

/// Going from an offset inside the text to its line and column and back gives
/// the offset again.
pub proof fn law_offset_round_trip(text: &str, offset: nat)
    requires
        offset <= text.spec_bytes().len(),
    ensures
        ({
            let b = text.spec_bytes();
            let lc = spec_offset_to_line_col(b, offset as int);
            spec_line_col_to_offset(b, lc.0, lc.1) == offset
        }),
{
    let b = text.spec_bytes();
    lemma_line_start_of_offset(b, offset as int);
    lemma_line_begin(b, offset as int);
}

/// Line and column of the byte offset `offset` in `text`.
pub fn offset_to_line_col(text: &str, offset: usize) -> (r: (usize, usize))
    ensures
        r.0 == spec_offset_to_line_col(text.spec_bytes(), offset as int).0,
        r.1 == spec_offset_to_line_col(text.spec_bytes(), offset as int).1,
{
    let b = text.as_bytes();
    let n: usize = b.len();
    let stop: usize = if offset <= n { offset } else { n };
    let mut i: usize = 0;
    let mut line: usize = 0;
    let mut begin: usize = 0;
    while i < stop
        invariant
            b@ == text.spec_bytes(),
            n == b@.len(),
            i <= stop <= n,
            line == breaks_before(b@, i as int),
            begin == line_begin(b@, i as int),
            line <= i,
            begin <= i,
        decreases stop - i,
    {
        if b[i] == LINE_BREAK {
            line = line + 1;
            begin = i + 1;
        }
        i = i + 1;
    }
    if offset <= n {
        (line, offset - begin)
    } else {
        (line, 0)
    }
}

/// The byte offset of column `col` in line `line` of `text`, kept within
/// `usize`.
pub fn line_col_to_offset(text: &str, line: usize, col: usize) -> (r: usize)
    ensures
        r == saturate(spec_line_col_to_offset(text.spec_bytes(), line as nat, col as nat)),
{
    let b = text.as_bytes();
    let n: usize = b.len();
    let mut i: usize = 0;
    let mut seen: usize = 0;
    let mut begin: usize = 0;
    while i < n && seen < line
        invariant
            b@ == text.spec_bytes(),
            n == b@.len(),
            i <= n,
            seen == breaks_before(b@, i as int),
            begin == line_begin(b@, i as int),
            seen <= line,
            seen <= i,
            begin <= i,
        decreases n - i,
    {
        if b[i] == LINE_BREAK {
            seen = seen + 1;
            begin = i + 1;
        }
        i = i + 1;
    }
    proof {
        lemma_line_start_of_offset(b@, i as int);
    }
    if seen == line {
        if col <= usize::MAX - begin {
            begin + col
        } else {
            usize::MAX
        }
    } else if n < usize::MAX {
        n + 1
    } else {
        usize::MAX
    }
}

} // verus!
