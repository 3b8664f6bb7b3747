//! Calls into the `time` crate for day arithmetic and date parsing.
use vstd::prelude::*;

use crate::dates::{max_day_number, min_day_number, CalDate};

verus! {

/// Largest number of days a `time::Duration` can hold without overflowing its seconds.
pub const MAX_DURATION_DAYS: i64 = 106_751_991_167_300;

/// What `time::Date::parse` gives for `s` with the ISO-8601 default configuration,
/// as (year, month, day).
pub uninterp spec fn iso8601_date(s: Seq<char>) -> Option<(int, int, int)>;

/// What `time::Date::parse` gives for `s` with the format description
/// `[year]-[month]-[day]`, as (year, month, day).
pub uninterp spec fn ymd_format_date(s: Seq<char>) -> Option<(int, int, int)>;

/// `time::Date::checked_add(time::Duration::days(days))`.
///
/// Trusted: adding whole days moves the date by exactly that many calendar days; the
/// result is absent exactly when it would leave the range -9999-01-01..=9999-12-31.
/// `Duration::days` panics when `days * 86400` overflows, hence the bound on `days`.
#[verifier::external_body]
pub(crate) fn date_add_days(d: CalDate, days: i64) -> (r: Option<CalDate>)
    requires
        d.valid(),
        -MAX_DURATION_DAYS <= days <= MAX_DURATION_DAYS,
    ensures
        r is Some <==> min_day_number() <= d.day_number() + days <= max_day_number(),
        r matches Some(x) ==> x.valid() && x.day_number() == d.day_number() + days,
{
    let month = time::Month::try_from(d.month).ok()?;
    let date = time::Date::from_calendar_date(d.year, month, d.day).ok()?;
    let x = date.checked_add(time::Duration::days(days))?;
    Some(CalDate { year: x.year(), month: x.month() as u8, day: x.day() })
}

/// Whole days from `b` to `a` (negative when `a` is earlier), as `(a - b).whole_days()`
/// gives them for two `time::Date` values: the difference of their day numbers.
pub(crate) fn date_days_between(a: CalDate, b: CalDate) -> (r: i64)
    requires
        a.valid(),
        b.valid(),
    ensures
        r == a.day_number() - b.day_number(),
{
    shifted_day_number(a) - shifted_day_number(b)
}

/// The day number of `d` plus that of 10000 years (25 whole 400-year cycles), which
/// keeps every division of the computation on non-negative numbers.
fn shifted_day_number(d: CalDate) -> (r: i64)
    requires
        d.valid(),
    ensures
        r == d.day_number() + 25 * 146097,
{
    let y: i64 = d.year as i64;
    let m: i64 = d.month as i64;
    let dd: i64 = d.day as i64;
    let yy0: i64 = if m <= 2 {
        y - 1
    } else {
        y
    };
    let yy: i64 = yy0 + 10000;
    let era: i64 = yy / 400;
    let yoe: i64 = yy - era * 400;
    let mp: i64 = if m > 2 {
        m - 3
    } else {
        m + 9
    };
    let doy: i64 = (153 * mp + 2) / 5 + dd - 1;
    let doe: i64 = yoe * 365 + yoe / 4 - yoe / 100 + doy;
    proof {
        let q = (yy0 as int) / 400;
        let rem = (yy0 as int) % 400;
        vstd::arithmetic::div_mod::lemma_fundamental_div_mod(yy0 as int, 400);
        vstd::arithmetic::div_mod::lemma_fundamental_div_mod_converse(yy as int, 400, q + 25, rem);
        assert(era == q + 25);
        assert(yoe == (yy0 as int) - q * 400);
    }
    era * 146097 + doe - 719468
}

/// `time::Date::parse(s, &Iso8601::DEFAULT)`.
///
/// Trusted: the result is the named parse of `s`; a parsed date is a valid date.
#[verifier::external_body]
pub(crate) fn date_parse_iso8601(s: &str) -> (r: Option<CalDate>)
    ensures
        r matches Some(x) ==> x.valid() && iso8601_date(s@) == Some(
            (x.year as int, x.month as int, x.day as int),
        ),
        r is None ==> iso8601_date(s@) is None,
{
    let format = time::format_description::well_known::Iso8601::DEFAULT;
    let x = time::Date::parse(s, &format).ok()?;
    Some(CalDate { year: x.year(), month: x.month() as u8, day: x.day() })
}

/// `time::Date::parse(s, "[year]-[month]-[day]")`.
///
/// Trusted: the result is the named parse of `s`; a parsed date is a valid date.
#[verifier::external_body]
pub(crate) fn date_parse_ymd(s: &str) -> (r: Option<CalDate>)
    ensures
        r matches Some(x) ==> x.valid() && ymd_format_date(s@) == Some(
            (x.year as int, x.month as int, x.day as int),
        ),
        r is None ==> ymd_format_date(s@) is None,
{
    let format = time::format_description::parse("[year]-[month]-[day]").ok()?;
    let x = time::Date::parse(s, &format).ok()?;
    Some(CalDate { year: x.year(), month: x.month() as u8, day: x.day() })
}

} // verus!
