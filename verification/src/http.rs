//! Status codes of HTTP replies.

use vstd::prelude::*;
use vstd::string::StringExecFns;

use crate::text::{decimal, push_decimal};

verus! {

/// The code that says that an address does not take this kind of request.
pub const METHOD_NOT_ALLOWED: u16 = 405;

/// The reason phrase that the HTTP registry has for `code`, as `reqwest` knows it.
pub uninterp spec fn canonical_reason(code: u16) -> Option<Seq<char>>;

/// Calls `reqwest::StatusCode::from_u16` and, on the status code, `canonical_reason`. The
/// contract claims that the code alone decides the phrase, and whether there is one. It leaves
/// unsaid which phrase belongs to which code.
#[verifier::external_body]
pub(crate) fn reason_of(code: u16) -> (reason: Option<String>)
    ensures
        match reason {
            Some(phrase) => canonical_reason(code) == Some(phrase@),
            None => canonical_reason(code) is None,
        },
{
    match reqwest::StatusCode::from_u16(code) {
        Ok(status) => status.canonical_reason().map(|phrase| phrase.to_string()),
        Err(_) => None,
    }
}

/// Whether a status code means success.
pub open spec fn success(code: u16) -> bool {
    200 <= code < 300
}

/// Whether a status code means success.
pub fn is_success(code: u16) -> (b: bool)
    ensures
        b == success(code),
{
    200 <= code && code < 300
}

/// A status code and its reason phrase, as they are shown.
pub open spec fn status_text(code: u16, reason: Option<Seq<char>>) -> Seq<char> {
    decimal(code as int) + " "@ + (match reason {
        Some(phrase) => phrase,
        None => "<unknown status code>"@,
    })
}

/// A status code and its reason phrase, as they are shown.
pub fn show_status(code: u16, reason: &Option<String>) -> (shown: String)
    ensures
        shown@ == status_text(
            code,
            match reason {
                Some(phrase) => Some(phrase@),
                None => None,
            },
        ),
{
    let mut shown = String::new();
    push_decimal(&mut shown, code as usize);
    assert(shown@ =~= decimal(code as int));
    shown.append(" ");
    match reason {
        Some(phrase) => shown.append(phrase.as_str()),
        None => shown.append("<unknown status code>"),
    }
    shown
}

/// What is said of the answer to a first, trying request.
pub open spec fn test_text(code: u16, reason: Option<Seq<char>>) -> Seq<char> {
    "test response: "@ + status_text(code, reason) + " - "@ + (match reason {
        Some(phrase) => phrase,
        None => "Unknown"@,
    })
}

/// What is said of the answer to a first, trying request.
pub fn show_test(code: u16, reason: &Option<String>) -> (shown: String)
    ensures
        shown@ == test_text(
            code,
            match reason {
                Some(phrase) => Some(phrase@),
                None => None,
            },
        ),
{
    let mut shown = "test response: ".to_owned();
    let status = show_status(code, reason);
    shown.append(status.as_str());
    shown.append(" - ");
    match reason {
        Some(phrase) => shown.append(phrase.as_str()),
        None => shown.append("Unknown"),
    }
    shown
}

} // verus!
