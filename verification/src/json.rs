//! Whether a text is JSON.

use vstd::prelude::*;

verus! {

/// What `serde_json` objects to in `content`, when it reads it as one JSON value; `None` where
/// it reads it.
pub uninterp spec fn json_error(content: Seq<char>) -> Option<Seq<char>>;

/// Calls `serde_json::from_str` for a `serde_json::Value`, which is then dropped. The contract
/// claims that the text alone decides whether it is read and, where it is not, what the
/// `Display` form of the error says. It leaves unsaid which texts are read.
#[verifier::external_body]
pub(crate) fn check_json(content: &str) -> (checked: Result<(), String>)
    ensures
        match checked {
            Ok(_) => json_error(content@) is None,
            Err(error) => json_error(content@) == Some(error@),
        },
{
    match serde_json::from_str::<serde_json::Value>(content) {
        Ok(_) => Ok(()),
        Err(error) => Err(error.to_string()),
    }
}

} // verus!
