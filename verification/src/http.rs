//! The parts of HTTP that the proxy reads: status codes and header values.

use vstd::prelude::*;

verus! {

/// The status codes that HTTP has room for: those of three digits.
pub open spec fn status_exists(code: u16) -> bool {
    100 <= code <= 999
}

/// `StatusCode::from_u16`, from a number to a number: a code below 100 or above
/// 999 is refused, and every other one is kept.
#[verifier::external_body]
fn status_code(code: u16) -> (r: Option<u16>)
    ensures
        r == if status_exists(code) {
            Some(code)
        } else {
            None
        },
{
    match axum::http::StatusCode::from_u16(code) {
        Ok(status) => Some(status.as_u16()),
        Err(_) => None,
    }
}

/// The status code `code`, or 502 where there is no such code.
pub fn status_from_u16(code: u16) -> (r: u16)
    ensures
        r == if status_exists(code) {
            code
        } else {
            502
        },
{
    match status_code(code) {
        Some(status) => status,
        None => 502,
    }
}

/// How `StatusCode` prints itself: the number and the reason that goes with it.
pub uninterp spec fn status_text(code: u16) -> Seq<char>;

/// `StatusCode::to_string` on the status of the given number. The contract
/// claims that the text is a function of the number.
#[verifier::external_body]
pub(crate) fn status_line(code: u16) -> (r: Option<String>)
    ensures
        r is Some <==> status_exists(code),
        r is Some ==> r->0@ == status_text(code),
{
    match axum::http::StatusCode::from_u16(code) {
        Ok(status) => Some(status.to_string()),
        Err(_) => None,
    }
}

/// Whether a byte of a header value is a visible ASCII character, a space or a
/// tab.
pub open spec fn visible(b: u8) -> bool {
    32 <= b < 127 || b == 9
}

/// The text of a header value: its bytes, where each one is visible ASCII.
pub open spec fn header_text(bytes: Seq<u8>) -> Option<Seq<char>> {
    if forall|i: int| 0 <= i < bytes.len() ==> visible(#[trigger] bytes[i]) {
        Some(Seq::new(bytes.len(), |i: int| bytes[i] as char))
    } else {
        None
    }
}

/// The text of a header value, where it has one.
pub fn header_to_str(bytes: &Vec<u8>) -> (r: Option<String>)
    ensures
        match r {
            Some(s) => header_text(bytes@) == Some(s@),
            None => header_text(bytes@) is None,
        },
{
    let mut out = String::new();
    let mut i: usize = 0;
    while i < bytes.len()
        invariant
            i <= bytes@.len(),
            forall|j: int| 0 <= j < i ==> visible(#[trigger] bytes@[j]),
            out@ == Seq::new(i as nat, |j: int| bytes@[j] as char),
        decreases bytes@.len() - i,
    {
        let b: u8 = bytes[i];
        if !((32 <= b && b < 127) || b == 9) {
            assert(!visible(bytes@[i as int]));
            return None;
        }
        out.push(b as char);
        i += 1;
    }
    Some(out)
}

} // verus!
