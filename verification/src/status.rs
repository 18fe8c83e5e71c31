//! The text of an HTTP status, as `reqwest` writes it.

use vstd::prelude::*;

verus! {

/// The text that `reqwest::StatusCode` displays for the status with this
/// number: the number and the reason phrase that belongs to it.
pub uninterp spec fn status_display(code: u16) -> Seq<char>;

/// Whether a number can be an HTTP status.
pub open spec fn is_status(code: u16) -> bool {
    100 <= code <= 999
}

/// Makes the status with this number by `reqwest::StatusCode::from_u16`, and
/// writes it out by its `Display`.
///
/// Believed, not proved: `from_u16` takes exactly the numbers from 100 to
/// 999, and the text written depends on the number alone.
#[verifier::external_body]
pub(crate) fn display_status(code: u16) -> (text: Option<String>)
    ensures
        text is Some <==> is_status(code),
        text matches Some(t) ==> t@ == status_display(code),
{
    match reqwest::StatusCode::from_u16(code) {
        Ok(status) => Some(status.to_string()),
        Err(_) => None,
    }
}

} // verus!
