//! Validation of ticker symbols.

use vstd::prelude::*;
use vstd::string::StrSliceExecFns;

verus! {

/// Whether `c` is alphabetic or numeric: what `char::is_alphanumeric`
/// returns for it.
pub uninterp spec fn alphanumeric(c: char) -> bool;

/// Whether every character of the text is alphabetic or numeric.
pub open spec fn all_alphanumeric(text: Seq<char>) -> bool {
    forall|i: int| 0 <= i < text.len() ==> alphanumeric(#[trigger] text[i])
}

/// Calls `char::is_alphanumeric` of the standard library, which decides by
/// the Unicode tables alone whether the character is alphabetic or numeric.
#[verifier::external_body]
fn is_alphanumeric(c: char) -> (r: bool)
    ensures
        r == alphanumeric(c),
{
    c.is_alphanumeric()
}

/// Whether every character of the text is alphabetic or numeric.
pub fn is_all_alphanumeric(input: &str) -> (r: bool)
    ensures
        r == all_alphanumeric(input@),
{
    let n: usize = input.unicode_len();
    let mut i: usize = 0;
    while i < n
        invariant
            i <= n,
            n == input@.len(),
            forall|j: int| 0 <= j < i ==> alphanumeric(#[trigger] input@[j]),
        decreases n - i,
    {
        if !is_alphanumeric(input.get_char(i)) {
            return false;
        }
        i += 1;
    }
    true
}

/// Accepts a ticker symbol that is not empty and made of alphabetic and
/// numeric characters only, and hands it back; else says what is wrong.
pub fn validate_ticker(input: &str) -> (r: Result<&str, &str>)
    ensures
        input@.len() == 0 ==> r is Err && r->Err_0@ == "The ticker symbol cannot be empty."@,
        input@.len() > 0 && !all_alphanumeric(input@) ==> r is Err && r->Err_0@
            == "The ticker symbol must be alphanumeric."@,
        input@.len() > 0 && all_alphanumeric(input@) ==> r is Ok && r->Ok_0@ == input@,
{
    if input.is_empty() {
        Err("The ticker symbol cannot be empty.")
    } else if !is_all_alphanumeric(input) {
        Err("The ticker symbol must be alphanumeric.")
    } else {
        Ok(input)
    }
}

/// Says why a ticker symbol is not accepted.
pub fn get_validation_error_message(input: &str) -> (r: &'static str)
    ensures
        input@.len() == 0 ==> r@ == "The ticker symbol cannot be empty."@,
        input@.len() > 0 && !all_alphanumeric(input@) ==> r@
            == "The ticker symbol must be alphanumeric."@,
        input@.len() > 0 && all_alphanumeric(input@) ==> r@ == "Unknown validation error."@,
{
    if input.is_empty() {
        "The ticker symbol cannot be empty."
    } else if !is_all_alphanumeric(input) {
        "The ticker symbol must be alphanumeric."
    } else {
        "Unknown validation error."
    }
}

} // verus!
