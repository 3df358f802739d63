//! The text of the response panel.

use vstd::prelude::*;
use vstd::string::*;
use crate::chars::{lemma_utf8_concat, utf8};

verus! {

/// The character of the digit `d`.
pub open spec fn digit_char(d: int) -> char {
    "0123456789"@[d]
}

/// `n` written in decimal digits, without leading zeros.
pub open spec fn spec_decimal(n: nat) -> Seq<char>
    decreases n,
{
    if n < 10 {
        seq![digit_char(n as int)]
    } else {
        spec_decimal(n / 10).push(digit_char((n % 10) as int))
    }
}

/// The text shown for a response: its status, an empty line, its body.
pub open spec fn spec_response_text(status: u16, body: Seq<u8>) -> Seq<u8> {
    utf8("Status: "@ + spec_decimal(status as nat) + "\n\n"@) + body
}

/// The text shown while there is no response.
pub open spec fn spec_placeholder() -> Seq<u8> {
    utf8("No response yet. Press Enter to send request."@)
}

/// `n` written in decimal digits.
pub fn decimal(n: u16) -> (r: String)
    ensures
        r@ == spec_decimal(n as nat),
    decreases n,
{
    proof {
        reveal_strlit("0123456789");
    }
    let mut r = if n >= 10 {
        decimal(n / 10)
    } else {
        String::new()
    };
    let d: u16 = n % 10;
    r.push("0123456789".get_char(d as usize));
    proof {
        if n < 10 {
            assert(r@ =~= seq![digit_char(n as int)]);
        }
    }
    r
}

/// The text shown for a response with the given status and body.
pub fn response_text(status: u16, body: &str) -> (r: String)
    ensures
        utf8(r@) == spec_response_text(status, body.spec_bytes()),
{
    let mut r = "Status: ".to_owned();
    let digits = decimal(status);
    r.append(digits.as_str());
    r.append("\n\n");
    let ghost head = r@;
    r.append(body);
    proof {
        lemma_utf8_concat(head, body@);
    }
    r
}

/// The text shown while there is no response.
pub fn placeholder() -> (r: String)
    ensures
        utf8(r@) == spec_placeholder(),
{
    "No response yet. Press Enter to send request.".to_owned()
}

} // verus!
