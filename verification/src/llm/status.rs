//! HTTP status codes as the providers' replies carry them.

use vstd::prelude::*;
use vstd::string::*;

verus! {

broadcast use vstd::string::group_string_axioms;

/// A 2xx status: the request succeeded.
pub open spec fn is_success_code(code: u16) -> bool {
    200 <= code < 300
}

/// Whether `code` reports success, as `StatusCode::is_success` decides.
pub fn is_success_status(code: u16) -> (b: bool)
    ensures
        b == is_success_code(code),
{
    200 <= code && code < 300
}

/// The reason phrase that the `http` crate registers for `code`, if any.
pub uninterp spec fn canonical_reason(code: u16) -> Option<Seq<char>>;

/// Calls `StatusCode::canonical_reason` (through reqwest's re-export of the
/// `http` crate) for a code that `StatusCode::from_u16` accepts; the result
/// is `canonical_reason` of the code.
#[verifier::external_body]
fn status_reason(code: u16) -> (r: Option<String>)
    requires
        100 <= code <= 999,
    ensures
        r matches Some(s) ==> canonical_reason(code) == Some(s@),
        r is None ==> canonical_reason(code) is None,
{
    match reqwest::StatusCode::from_u16(code) {
        Ok(status) => status.canonical_reason().map(String::from),
        Err(_) => None,
    }
}

/// The character of a decimal digit.
pub open spec fn digit_char(d: int) -> char {
    ('0' as int + d) as char
}

/// The three decimal digits of a code in `100..=999`.
pub open spec fn code_digits(code: u16) -> Seq<char> {
    seq![digit_char(code as int / 100), digit_char((code as int / 10) % 10), digit_char(code as int % 10)]
}

/// How a status code is displayed: its digits, a space and its reason
/// phrase (or a marker for an unregistered code).
pub open spec fn status_text(code: u16) -> Seq<char> {
    code_digits(code) + " "@ + match canonical_reason(code) {
        Some(reason) => reason,
        None => "<unknown status code>"@,
    }
}

/// The text of one decimal digit.
fn digit_text(d: u16) -> (r: &'static str)
    requires
        d < 10,
    ensures
        r@ == seq![digit_char(d as int)],
{
    proof {
        reveal_strlit("0");
        reveal_strlit("1");
        reveal_strlit("2");
        reveal_strlit("3");
        reveal_strlit("4");
        reveal_strlit("5");
        reveal_strlit("6");
        reveal_strlit("7");
        reveal_strlit("8");
        reveal_strlit("9");
    }
    match d {
        0 => "0",
        1 => "1",
        2 => "2",
        3 => "3",
        4 => "4",
        5 => "5",
        6 => "6",
        7 => "7",
        8 => "8",
        _ => "9",
    }
}

/// Displays a status code as `StatusCode`'s `Display` does: "404 Not Found".
pub fn status_display(code: u16) -> (r: String)
    requires
        100 <= code <= 999,
    ensures
        r@ == status_text(code),
{
    let digits = String::from_str(digit_text(code / 100)).concat(digit_text((code / 10) % 10)).concat(
        digit_text(code % 10),
    );
    let with_space = digits.concat(" ");
    match status_reason(code) {
        Some(reason) => with_space.concat(reason.as_str()),
        None => with_space.concat("<unknown status code>"),
    }
}

} // verus!
