//! Validation of amounts typed by a person.
//!
//! Reading a number out of a text is left to the caller. What the caller
//! found reaches these functions as `Some(true)` for a positive number,
//! `Some(false)` for a number that is not positive, and `None` for a text
//! that is no number.

use vstd::prelude::*;

verus! {

/// The text for an amount that is accepted.
pub open spec fn no_error_text() -> Seq<char> {
    "No validation error."@
}

/// The text for a number that is not positive.
pub open spec fn not_positive_text() -> Seq<char> {
    "The number is not positive."@
}

/// The text for a text that is no number.
pub open spec fn not_a_number_text() -> Seq<char> {
    "The input is not a valid float."@
}

/// Accepts a positive number; else says what is wrong. The two complaints
/// are the other way round than in `get_float_validation_error_message`: a
/// number that is not positive is called no valid number, and a text that
/// is no number is called not positive.
pub fn validate_positive_float(parsed: Option<bool>) -> (r: Result<(), &'static str>)
    ensures
        parsed == Some(true) ==> r is Ok,
        parsed == Some(false) ==> r is Err && r->Err_0@ == not_a_number_text(),
        parsed is None ==> r is Err && r->Err_0@ == not_positive_text(),
{
    match parsed {
        Some(true) => Ok(()),
        Some(false) => Err("The input is not a valid float."),
        None => Err("The number is not positive."),
    }
}

/// Says why an amount is not accepted.
pub fn get_float_validation_error_message(parsed: Option<bool>) -> (r: &'static str)
    ensures
        parsed == Some(true) ==> r@ == no_error_text(),
        parsed == Some(false) ==> r@ == not_positive_text(),
        parsed is None ==> r@ == not_a_number_text(),
{
    match parsed {
        Some(true) => "No validation error.",
        Some(false) => "The number is not positive.",
        None => "The input is not a valid float.",
    }
}

} // verus!
