//! A text as the sequence of its lines.
//!
//! The lines of a text are what stands between its line breaks: a text with
//! `k` line breaks has `k + 1` lines, some of them perhaps empty. Edits of
//! whole lines are edits of this sequence, and the lemmas here say how the
//! sequence follows when texts are joined and parted at line breaks.

use vstd::prelude::*;
use crate::text::{
    breaks_before, lemma_breaks_monotone, lemma_breaks_of_prefix, lemma_line_begin,
    lemma_line_finish, lemma_line_finish_is, lemma_line_start, line_begin, line_count,
    line_finish, line_len, line_start, LINE_BREAK,
};

verus! {

/// Whether `t` holds no line break.
pub open spec fn one_line(t: Seq<u8>) -> bool {
    forall|j: int| 0 <= j < t.len() ==> t[j] != LINE_BREAK
}

/// The lines of `b`, in order, each without its line break.
pub open spec fn lines_of(b: Seq<u8>) -> Seq<Seq<u8>>
    decreases b.len(),
{
    let e = line_finish(b, 0);
    if e >= b.len() {
        seq![b]
    } else {
        proof {
            lemma_line_finish(b, 0);
        }
        seq![b.subrange(0, e)] + lines_of(b.subrange(e + 1, b.len() as int))
    }
}

/// The bytes of line `k` of `b`, without its line break.
pub open spec fn spec_line(b: Seq<u8>, k: nat) -> Seq<u8> {
    b.subrange(line_start(b, k), line_start(b, k) + line_len(b, k))
}

/// The lines before the line that begins at `a`.
pub open spec fn lines_before(b: Seq<u8>, a: int) -> Seq<Seq<u8>> {
    if a <= 0 {
        Seq::empty()
    } else {
        lines_of(b.subrange(0, a - 1))
    }
}

/// The lines behind the line that ends at `e`.
pub open spec fn lines_behind(b: Seq<u8>, e: int) -> Seq<Seq<u8>> {
    if e >= b.len() {
        Seq::empty()
    } else {
        lines_of(b.subrange(e + 1, b.len() as int))
    }
}

/// A text of one line holds no line break.
pub proof fn lemma_single_line(b: Seq<u8>)
    requires
        line_count(b) == 1,
    ensures
        one_line(b),
{
    assert forall|j: int| 0 <= j < b.len() implies b[j] != LINE_BREAK by {
        if b[j] == LINE_BREAK {
            assert(breaks_before(b, j + 1) >= 1);
            lemma_breaks_monotone(b, j + 1, b.len() as int);
        }
    }
}

/// A text without a line break is its own only line.
pub proof fn lemma_lines_of_one(m: Seq<u8>)
    requires
        one_line(m),
    ensures
        lines_of(m) == seq![m],
{
    lemma_line_finish_is(m, 0, m.len() as int);
}

/// The lines of two texts joined by a line break are the lines of the first
/// followed by the lines of the second.
pub proof fn lemma_lines_concat(x: Seq<u8>, y: Seq<u8>)
    ensures
        lines_of(x + seq![LINE_BREAK] + y) == lines_of(x) + lines_of(y),
    decreases x.len(),
{
    let w = x + seq![LINE_BREAK] + y;
    let e = line_finish(x, 0);
    lemma_line_finish(x, 0);
    assert forall|j: int| 0 <= j < e implies w[j] != LINE_BREAK by {
        assert(w[j] == x[j]);
    }
    if e < x.len() {
        assert(w[e] == x[e]);
    } else {
        assert(w[e] == LINE_BREAK);
    }
    lemma_line_finish_is(w, 0, e);
    assert(w.subrange(0, e) =~= x.subrange(0, e));
    if e >= x.len() {
        assert(x.subrange(0, e) =~= x);
        assert(w.subrange(e + 1, w.len() as int) =~= y);
    } else {
        let rest = x.subrange(e + 1, x.len() as int);
        assert(w.subrange(e + 1, w.len() as int) =~= rest + seq![LINE_BREAK] + y);
        lemma_lines_concat(rest, y);
        assert(lines_of(w) =~= lines_of(x) + lines_of(y));
    }
}

/// A text has as many lines in sequence as it has line breaks, and one more.
pub proof fn lemma_lines_count(b: Seq<u8>)
    ensures
        lines_of(b).len() == line_count(b),
    decreases b.len(),
{
    let n = b.len() as int;
    let a = line_begin(b, n);
    lemma_line_begin(b, n);
    let last = b.subrange(a, n);
    assert(one_line(last)) by {
        assert forall|j: int| 0 <= j < last.len() implies last[j] != LINE_BREAK by {
            assert(last[j] == b[a + j]);
        }
    }
    lemma_lines_of_one(last);
    if a == 0 {
        assert(last =~= b);
    } else {
        let front = b.subrange(0, a - 1);
        assert(b =~= front + seq![LINE_BREAK] + last);
        lemma_lines_concat(front, last);
        lemma_lines_count(front);
        lemma_breaks_of_prefix(b, a - 1, a - 1);
    }
}

/// A text in which one line is replaced: where the line of `b` that begins at
/// `a` and ends at `e` gives way to `m`, itself one line, the lines before and
/// behind stay, and `m` stands between them.
pub proof fn lemma_lines_around(b: Seq<u8>, a: int, e: int, m: Seq<u8>)
    requires
        0 <= a <= e <= b.len(),
        a == 0 || b[a - 1] == LINE_BREAK,
        e == b.len() || b[e] == LINE_BREAK,
        one_line(m),
    ensures
        lines_of(b.subrange(0, a) + m + b.subrange(e, b.len() as int)) == lines_before(b, a)
            + seq![m] + lines_behind(b, e),
        lines_before(b, a).len() == breaks_before(b, a),
{
    let n = b.len() as int;
    let r = b.subrange(0, a) + m + b.subrange(e, n);
    lemma_lines_of_one(m);
    let back = m + b.subrange(e, n);
    if e < n {
        let behind = b.subrange(e + 1, n);
        assert(back =~= m + seq![LINE_BREAK] + behind);
        lemma_lines_concat(m, behind);
    } else {
        assert(back =~= m);
    }
    assert(lines_of(back) =~= seq![m] + lines_behind(b, e));
    if a > 0 {
        let front = b.subrange(0, a - 1);
        assert(r =~= front + seq![LINE_BREAK] + back);
        lemma_lines_concat(front, back);
        lemma_lines_count(front);
        lemma_breaks_of_prefix(b, a - 1, a - 1);
        assert(lines_of(r) =~= lines_before(b, a) + seq![m] + lines_behind(b, e));
    } else {
        assert(r =~= back);
        assert(lines_of(r) =~= lines_before(b, a) + seq![m] + lines_behind(b, e));
    }
}

/// The lines of a text around the line that holds offset `c`: the lines before
/// it, the line itself, the lines behind it. The line is the one whose number
/// is the count of line breaks before `c`.
pub proof fn lemma_lines_at(b: Seq<u8>, c: int)
    requires
        0 <= c <= b.len(),
    ensures
        lines_of(b) == lines_before(b, line_begin(b, c)) + seq![
            b.subrange(line_begin(b, c), line_finish(b, c)),
        ] + lines_behind(b, line_finish(b, c)),
        lines_before(b, line_begin(b, c)).len() == breaks_before(b, c),
        one_line(b.subrange(line_begin(b, c), line_finish(b, c))),
        breaks_before(b, c) < lines_of(b).len(),
        lines_of(b)[breaks_before(b, c) as int] == b.subrange(line_begin(b, c), line_finish(b, c)),
{
    let a = line_begin(b, c);
    let e = line_finish(b, c);
    lemma_line_begin(b, c);
    lemma_line_finish(b, c);
    let mid = b.subrange(a, e);
    assert(one_line(mid)) by {
        assert forall|j: int| 0 <= j < mid.len() implies mid[j] != LINE_BREAK by {
            assert(mid[j] == b[a + j]);
        }
    }
    lemma_lines_around(b, a, e, mid);
    assert(b =~= b.subrange(0, a) + mid + b.subrange(e, b.len() as int));
}

/// Line `k` of a text, found by its offsets, is the entry `k` of its lines.
pub proof fn law_line_is_entry(b: Seq<u8>, k: nat)
    requires
        k < line_count(b),
    ensures
        k < lines_of(b).len(),
        lines_of(b)[k as int] == spec_line(b, k),
{
    lemma_line_start(b, k);
    lemma_lines_at(b, line_start(b, k));
    lemma_lines_count(b);
    let a = line_start(b, k);
    lemma_line_finish(b, a);
}

} // verus!
