//! Calendar dates read from text.

use chrono::Datelike;
use vstd::prelude::*;

verus! {

/// A calendar date.
#[derive(Debug, Clone, Copy, PartialEq, Eq, Structural)]
pub struct Date {
    pub year: i32,
    pub month: u32,
    pub day: u32,
}

/// What `chrono::NaiveDate::parse_from_str(s, "%Y-%m-%d")` reads from `s`:
/// `Some((year, month, day))` for a valid date, `None` otherwise.
pub uninterp spec fn ymd_parsed(s: Seq<char>) -> Option<(i32, u32, u32)>;

#[verifier::external_type_specification]
#[verifier::external_body]
pub struct ExParseError(chrono::format::ParseError);

/// Relies on `chrono::NaiveDate::parse_from_str` with the format
/// `%Y-%m-%d`, and on `Datelike` for the year, month and day it read.
#[verifier::external_body]
fn parse_ymd(s: &str) -> (r: Result<(i32, u32, u32), chrono::format::ParseError>)
    ensures
        match r {
            Ok(d) => ymd_parsed(s@) == Some(d),
            Err(_) => ymd_parsed(s@) is None,
        },
{
    chrono::NaiveDate::parse_from_str(s, "%Y-%m-%d").map(|d| (d.year(), d.month(), d.day()))
}

/// Reads a `YYYY-MM-DD` date.
pub fn parse_date(s: &str) -> (r: Option<Date>)
    ensures
        match ymd_parsed(s@) {
            Some((y, m, d)) => r == Some(Date { year: y, month: m, day: d }),
            None => r is None,
        },
{
    match parse_ymd(s) {
        Ok((y, m, d)) => Some(Date { year: y, month: m, day: d }),
        Err(_) => None,
    }
}

} // verus!
