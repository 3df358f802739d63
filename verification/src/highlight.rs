//! The lines of a text as stretches of bytes, and the part of a line that a
//! selection covers: what a screen needs to show a selection.

use vstd::prelude::*;
use vstd::string::*;
use crate::text::{
    breaks_before, lemma_line_begin, lemma_line_finish_is, line_begin, line_count, line_len,
    line_start, LINE_BREAK,
};

verus! {

/// The part of the line from `line.0` up to `line.1` that the selection from
/// `selection.0` up to `selection.1` covers. A selection that ends at or before
/// the line, or begins at or behind its end, covers nothing of it.
pub open spec fn spec_selected_part(line: (usize, usize), selection: (usize, usize)) -> Option<
    (usize, usize),
> {
    if selection.1 <= line.0 || selection.0 >= line.1 {
        None
    } else {
        Some(
            (
                if selection.0 >= line.0 {
                    selection.0
                } else {
                    line.0
                },
                if selection.1 <= line.1 {
                    selection.1
                } else {
                    line.1
                },
            ),
        )
    }
}

/// The part of a line that a selection covers.
pub fn selected_part(line: (usize, usize), selection: (usize, usize)) -> (r: Option<
    (usize, usize),
>)
    ensures
        r == spec_selected_part(line, selection),
{
    if selection.1 <= line.0 || selection.0 >= line.1 {
        None
    } else {
        let from: usize = if selection.0 >= line.0 { selection.0 } else { line.0 };
        let to: usize = if selection.1 <= line.1 { selection.1 } else { line.1 };
        Some((from, to))
    }
}

/// The lines of `text`, each as the offset at which it begins and the offset
/// of the line break, or of the end of the text, at which it ends.
pub fn line_spans(text: &str) -> (r: Vec<(usize, usize)>)
    ensures
        r@.len() == line_count(text.spec_bytes()),
        forall|k: int|
            0 <= k < r@.len() ==> (#[trigger] r@[k]).0 == line_start(text.spec_bytes(), k as nat)
                && r@[k].1 == line_start(text.spec_bytes(), k as nat) + line_len(
                text.spec_bytes(),
                k as nat,
            ),
{
    let b = text.as_bytes();
    let n: usize = b.len();
    let mut spans: Vec<(usize, usize)> = Vec::new();
    let mut begin: usize = 0;
    let mut i: usize = 0;
    while i < n
        invariant
            b@ == text.spec_bytes(),
            n == b@.len(),
            begin <= i <= n,
            begin == line_begin(b@, i as int),
            spans@.len() == breaks_before(b@, i as int),
            begin == line_start(b@, spans@.len()),
            forall|k: int|
                0 <= k < spans@.len() ==> (#[trigger] spans@[k]).0 == line_start(b@, k as nat)
                    && spans@[k].1 == line_start(b@, k as nat) + line_len(b@, k as nat),
        decreases n - i,
    {
        if b[i] == LINE_BREAK {
            proof {
                lemma_line_begin(b@, i as int);
                lemma_line_finish_is(b@, begin as int, i as int);
            }
            spans.push((begin, i));
            begin = i + 1;
        }
        i = i + 1;
    }
    proof {
        lemma_line_begin(b@, n as int);
        lemma_line_finish_is(b@, begin as int, n as int);
    }
    spans.push((begin, n));
    spans
}

} // verus!
