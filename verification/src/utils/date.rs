//! Validation of calendar dates.

use vstd::prelude::*;
use chrono::TimeZone;

verus! {

/// A calendar date of the `chrono` crate.
#[verifier::external_type_specification]
#[verifier::external_body]
pub struct ExNaiveDate(chrono::NaiveDate);

/// A date and time of day of the `chrono` crate, without a time zone.
#[verifier::external_type_specification]
#[verifier::external_body]
pub struct ExNaiveDateTime(chrono::NaiveDateTime);

/// A moment in UTC, counted in whole seconds from the start of 1970.
#[derive(Clone, Copy, Debug, PartialEq, Eq, Structural)]
pub struct Moment {
    pub seconds: i64,
}

/// Whether the text is a date under the given format: whether
/// `NaiveDate::parse_from_str` accepts it.
pub uninterp spec fn parses_as_date(text: Seq<char>, format: Seq<char>) -> bool;

/// Whether the text is a date written as year, month and day with hyphens
/// between them.
pub open spec fn date_parses(text: Seq<char>) -> bool {
    parses_as_date(text, "%Y-%m-%d"@)
}

/// The text that asks for a date in the expected format.
pub open spec fn format_hint() -> Seq<char> {
    "Please enter a valid date in the format YYYY-MM-DD."@
}

/// The text that reports a time of day that does not exist.
pub open spec fn time_hint() -> Seq<char> {
    "Invalid time component in the date."@
}

/// Calls `NaiveDate::parse_from_str`, whose answer depends on the text and
/// the format alone, and drops the error it may return.
#[verifier::external_body]
fn parse_date(input: &str, format: &str) -> (r: Option<chrono::NaiveDate>)
    ensures
        r is Some == parses_as_date(input@, format@),
{
    chrono::NaiveDate::parse_from_str(input, format).ok()
}

/// Calls `NaiveDate::and_hms_opt`. The crate yields a value unless the hour,
/// the minute or the second is out of range.
#[verifier::external_body]
fn at_time(date: &chrono::NaiveDate, hour: u32, minute: u32, second: u32) -> (r: Option<
    chrono::NaiveDateTime,
>)
    ensures
        r is Some == (hour < 24 && minute < 60 && second < 60),
{
    date.and_hms_opt(hour, minute, second)
}

/// Calls `TimeZone::from_local_datetime` on `Utc` and keeps the result
/// where it is a single moment, as the seconds that `DateTime::timestamp`
/// counts. In UTC every local time is a single moment: the crate takes the
/// offset zero for it and subtracts that, which cannot fail.
#[verifier::external_body]
fn in_utc(moment: &chrono::NaiveDateTime) -> (r: Option<Moment>)
    ensures
        r is Some,
{
    match chrono::Utc.from_local_datetime(moment) {
        chrono::LocalResult::Single(datetime) => Some(Moment { seconds: datetime.timestamp() }),
        chrono::LocalResult::Ambiguous(_, _) => None,
        chrono::LocalResult::None => None,
    }
}

/// What is returned for a date that parsed, given the midnight of that date
/// if there is one, and that moment in UTC if it is a single one.
pub fn moment_of(midnight_found: bool, moment: Option<Moment>) -> (r: Result<Moment, &'static str>)
    ensures
        !midnight_found ==> r is Err && r->Err_0@ == time_hint(),
        midnight_found && moment is None ==> r is Err && r->Err_0@ == format_hint(),
        midnight_found && moment is Some ==> r == Ok::<Moment, &'static str>(moment->Some_0),
{
    if !midnight_found {
        Err("Invalid time component in the date.")
    } else {
        match moment {
            Some(datetime) => Ok(datetime),
            None => Err("Please enter a valid date in the format YYYY-MM-DD."),
        }
    }
}

/// Accepts a date written as `YYYY-MM-DD` and hands back the midnight that
/// begins it in UTC; else says what is wrong.
pub fn validate_date(input: &str) -> (r: Result<Moment, &str>)
    ensures
        r is Ok <==> date_parses(input@),
        r is Err ==> r->Err_0@ == format_hint(),
{
    match parse_date(input, "%Y-%m-%d") {
        Some(date) => match at_time(&date, 0, 0, 0) {
            Some(midnight) => moment_of(true, in_utc(&midnight)),
            None => moment_of(false, None),
        },
        None => Err("Please enter a valid date in the format YYYY-MM-DD."),
    }
}

} // verus!
