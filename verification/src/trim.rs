//! Taking white space off the ends of a text.

use vstd::prelude::*;
use vstd::string::*;
use vstd::utf8::*;
use crate::chars::{
    byte_len, char_at, char_start, floor_boundary, lemma_boundary_zero, lemma_char_start,
    lemma_char_start_le, lemma_text_valid, on_boundary, slice, spec_char_at, whitespace, Run,
};
use crate::words::{lemma_skip_run, skip_forward, skip_run};

verus! {

/// The end of the last character before the boundary `e` that is not white
/// space, or 0 where there is none.
pub open spec fn spec_trim_end(t: Seq<u8>, e: int) -> int
    decreases e,
{
    if e <= 0 {
        0
    } else {
        let q = char_start(t, e - 1);
        if !whitespace(spec_char_at(t, q)) {
            e
        } else {
            proof {
                lemma_char_start_le(t, e - 1);
            }
            spec_trim_end(t, q)
        }
    }
}

/// `t` without the white space at its beginning and at its end.
pub open spec fn spec_trim(t: Seq<u8>) -> Seq<u8> {
    let s = skip_run(t, 0, Run::Space);
    if s >= t.len() {
        Seq::empty()
    } else {
        t.subrange(s, spec_trim_end(t, t.len() as int))
    }
}

/// `text` without the white space at its beginning and at its end.
pub fn trim(text: &str) -> (r: &str)
    ensures
        r.spec_bytes() == spec_trim(text.spec_bytes()),
{
    let ghost b = text.spec_bytes();
    proof {
        lemma_text_valid(text);
        lemma_boundary_zero(b);
        lemma_skip_run(b, 0, Run::Space);
    }
    let n: usize = byte_len(text);
    let s = skip_forward(text, 0, Run::Space);
    if s >= n {
        let r = slice(text, n, n);
        proof {
            assert(r.spec_bytes() =~= Seq::<u8>::empty());
        }
        return r;
    }
    let mut e: usize = n;
    loop
        invariant
            b == text.spec_bytes(),
            valid_utf8(b),
            n == b.len(),
            s < e <= n,
            on_boundary(b, s as int),
            on_boundary(b, e as int),
            !whitespace(spec_char_at(b, s as int)),
            spec_trim_end(b, e as int) == spec_trim_end(b, n as int),
            s == skip_run(b, 0, Run::Space),
        ensures
            s < e <= n,
            on_boundary(b, e as int),
            e == spec_trim_end(b, n as int),
        decreases e,
    {
        proof {
            lemma_char_start(b, e - 1);
        }
        let q = floor_boundary(text, e - 1);
        let c = char_at(text, q);
        if !c.is_whitespace() {
            break;
        }
        e = q;
    }
    slice(text, s, e)
}

} // verus!
