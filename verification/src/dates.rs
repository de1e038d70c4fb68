//! Dates in the form that HTTP gives them.
//!
//! The time of a file is in nanoseconds from the start of 1970; a date of HTTP
//! has whole seconds.
use vstd::prelude::*;

use crate::headers;

verus! {

/// Nanoseconds in a second.
pub const SECOND: i128 = 1_000_000_000;

/// The first second that has no date: the year 10000 begins with it.
pub const DATE_LIMIT: u64 = 253_402_300_800;

/// The second that a date in one of the forms of HTTP stands for, counted
/// from the start of 1970.
pub uninterp spec fn http_date(text: Seq<char>) -> Option<u64>;

/// The date of a second, in the preferred form of HTTP.
pub uninterp spec fn http_date_text(second: u64) -> Seq<char>;

/// `httpdate::parse_http_date`: which second the text stands for, where it is
/// a date. This depends on the text alone.
#[verifier::external_body]
pub(crate) fn parse_date(text: &str) -> (result: Option<u64>)
    ensures
        result == http_date(text@),
{
    let date = httpdate::parse_http_date(text).ok()?;
    Some(date.duration_since(std::time::UNIX_EPOCH).ok()?.as_secs())
}

/// `httpdate::fmt_http_date`: the date of a second, which is plain text, begins
/// with a letter, and reads back as that second. A second without a date makes
/// it panic.
#[verifier::external_body]
pub(crate) fn format_date(second: u64) -> (result: String)
    requires
        second < DATE_LIMIT,
    ensures
        result@ == http_date_text(second),
        headers::plain(result@),
        result@.len() == 29,
        'A' <= result@[0] <= 'Z',
        http_date(result@) == Some(second),
{
    httpdate::fmt_http_date(std::time::UNIX_EPOCH + std::time::Duration::from_secs(second))
}

/// The file's time has a date.
pub open spec fn datable(modified: i128) -> bool {
    0 <= modified < DATE_LIMIT * SECOND
}

/// The second in which `modified` lies.
pub open spec fn second_of(modified: i128) -> u64 {
    (modified / SECOND) as u64
}

/// Whether the file's time has a date.
pub fn is_datable(modified: i128) -> (result: bool)
    ensures
        result == datable(modified),
{
    0 <= modified && modified < (DATE_LIMIT as i128) * SECOND
}

/// A file last changed at `modified` is still that of `date`, whose fractions
/// of a second are lost.
pub open spec fn unchanged_since(modified: i128, date: Option<u64>) -> bool {
    match date {
        Some(date) => modified <= (date + 1) * SECOND,
        None => false,
    }
}

/// Whether the file is still that of the date.
pub fn is_unchanged_since(modified: i128, date: Option<u64>) -> (result: bool)
    ensures
        result == unchanged_since(modified, date),
{
    match date {
        Some(date) => modified <= (date as i128 + 1) * SECOND,
        None => false,
    }
}

/// The date of a file.
pub fn date_of(modified: i128) -> (result: String)
    requires
        datable(modified),
    ensures
        result@ == http_date_text(second_of(modified)),
        headers::plain(result@),
        result@.len() == 29,
        'A' <= result@[0] <= 'Z',
        http_date(result@) == Some(second_of(modified)),
        unchanged_since(modified, http_date(result@)),
{
    let second: u64 = (modified / SECOND) as u64;
    assert(second == second_of(modified) && second < DATE_LIMIT);
    format_date(second)
}

} // verus!
