//! Proleptic Gregorian calendar dates and month arithmetic.
use vstd::prelude::*;

verus! {

/// Smallest year a stored date can have.
pub const MIN_YEAR: i32 = -9999;

/// Largest year a stored date can have.
pub const MAX_YEAR: i32 = 9999;

/// A calendar date (year, month 1..=12, day of month).
#[derive(Clone, Copy, Debug, PartialEq, Eq, Structural)]
pub struct CalDate {
    pub year: i32,
    pub month: u8,
    pub day: u8,
}

/// Gregorian leap-year rule.
pub open spec fn is_leap_year(y: int) -> bool {
    y % 400 == 0 || (y % 4 == 0 && y % 100 != 0)
}

/// Number of days in month `m` (1..=12) of year `y`.
pub open spec fn month_length(y: int, m: int) -> int {
    if m == 2 {
        if is_leap_year(y) {
            29
        } else {
            28
        }
    } else if m == 4 || m == 6 || m == 9 || m == 11 {
        30
    } else {
        31
    }
}

/// A year, month and day that form a date of the supported range.
pub open spec fn valid_ymd(y: int, m: int, d: int) -> bool {
    &&& MIN_YEAR <= y <= MAX_YEAR
    &&& 1 <= m <= 12
    &&& 1 <= d <= month_length(y, m)
}

/// Days from 1970-01-01 to the given proleptic Gregorian date (negative before it).
pub open spec fn ymd_day_number(y: int, m: int, d: int) -> int {
    let yy = if m <= 2 { y - 1 } else { y };
    let era = yy / 400;
    let yoe = yy - era * 400;
    let mp = if m > 2 { m - 3 } else { m + 9 };
    let doy = (153 * mp + 2) / 5 + d - 1;
    let doe = yoe * 365 + yoe / 4 - yoe / 100 + doy;
    era * 146097 + doe - 719468
}

/// Day number of the first supported date, -9999-01-01.
pub open spec fn min_day_number() -> int {
    ymd_day_number(MIN_YEAR as int, 1, 1)
}

/// Day number of the last supported date, 9999-12-31.
pub open spec fn max_day_number() -> int {
    ymd_day_number(MAX_YEAR as int, 12, 31)
}

/// Year and month reached by moving `k` months from (`y`, `m`).
pub open spec fn shift_month(y: int, m: int, k: int) -> (int, int) {
    let t = (m - 1) + k;
    (y + t / 12, t % 12 + 1)
}

/// The smaller of two integers.
pub open spec fn min_int(a: int, b: int) -> int {
    if a <= b {
        a
    } else {
        b
    }
}

/// The date `k` months after `d`, day clamped to the target month's length.
pub open spec fn add_months_date(d: CalDate, k: int) -> CalDate {
    let (ny, nm) = shift_month(d.year as int, d.month as int, k);
    CalDate { year: ny as i32, month: nm as u8, day: min_int(d.day as int, month_length(ny, nm)) as u8 }
}

impl CalDate {
    /// The date lies in the supported range and names an existing day.
    pub open spec fn valid(self) -> bool {
        valid_ymd(self.year as int, self.month as int, self.day as int)
    }

    /// Chronological order, which for valid dates is lexicographic on (year, month, day).
    pub open spec fn before_eq(self, other: CalDate) -> bool {
        ||| self.year < other.year
        ||| (self.year == other.year && self.month < other.month)
        ||| (self.year == other.year && self.month == other.month && self.day <= other.day)
    }

    /// Strict chronological order.
    pub open spec fn before(self, other: CalDate) -> bool {
        self.before_eq(other) && self != other
    }

    /// Days since 1970-01-01.
    pub open spec fn day_number(self) -> int {
        ymd_day_number(self.year as int, self.month as int, self.day as int)
    }

    /// Count of months since year 0, month 1.
    pub open spec fn month_index(self) -> int {
        self.year * 12 + self.month - 1
    }

    /// The date has the given year, month and day.
    pub open spec fn is_ymd(self, y: int, m: int, d: int) -> bool {
        self.year == y && self.month == m && self.day == d
    }

    /// Same day of month `k` months later, clamped to the length of the target month.
    pub open spec fn months_later_is(self, k: int, r: CalDate) -> bool {
        let (ny, nm) = shift_month(self.year as int, self.month as int, k);
        r.is_ymd(ny, nm, min_int(self.day as int, month_length(ny, nm)))
    }

    /// Builds a date when the components name an existing day of the supported range.
    pub fn new(year: i32, month: u8, day: u8) -> (r: Option<CalDate>)
        ensures
            r is Some <==> valid_ymd(year as int, month as int, day as int),
            r matches Some(d) ==> d.is_ymd(year as int, month as int, day as int),
    {
        if MIN_YEAR <= year && year <= MAX_YEAR && 1 <= month && month <= 12 && 1 <= day
            && day <= days_in_month(year, month) {
            Some(CalDate { year, month, day })
        } else {
            None
        }
    }

    /// Chronological `<=`.
    pub fn le(&self, other: &CalDate) -> (r: bool)
        ensures
            r == self.before_eq(*other),
    {
        self.year < other.year || (self.year == other.year && self.month < other.month) || (
        self.year == other.year && self.month == other.month && self.day <= other.day)
    }

    /// Chronological `<`.
    pub fn lt(&self, other: &CalDate) -> (r: bool)
        ensures
            r == self.before(*other),
    {
        self.year < other.year || (self.year == other.year && self.month < other.month) || (
        self.year == other.year && self.month == other.month && self.day < other.day)
    }

    /// The first day of this date's month.
    pub fn first_of_month(&self) -> (r: CalDate)
        requires
            self.valid(),
        ensures
            r.valid(),
            r.is_ymd(self.year as int, self.month as int, 1),
    {
        CalDate { year: self.year, month: self.month, day: 1 }
    }
}

/// Gregorian leap-year test.
#[verifier::spinoff_prover]
pub fn is_leap(year: i32) -> (r: bool)
    ensures
        r == is_leap_year(year as int),
{
    // Shift by a multiple of 400 so that the remainders below are of a non-negative value.
    let y: i64 = year as i64 + 40_000_000_000;
    assert(y % 400 == year as int % 400 && y % 100 == year as int % 100 && y % 4 == year as int
        % 4) by {
        assert(y == year as int + 400 * 100_000_000);
    }
    y % 400 == 0 || (y % 4 == 0 && y % 100 != 0)
}

/// Number of days in a month (month given as 1..=12).
pub fn days_in_month(year: i32, month: u8) -> (r: u8)
    requires
        1 <= month <= 12,
    ensures
        r as int == month_length(year as int, month as int),
        28 <= r <= 31,
{
    if month == 2 {
        if is_leap(year) {
            29
        } else {
            28
        }
    } else if month == 4 || month == 6 || month == 9 || month == 11 {
        30
    } else {
        31
    }
}

/// Moves `k` months from (`year`, `month`), returning the target year (as i64) and month.
pub fn shift_month_exec(year: i32, month: u8, k: i64) -> (r: (i64, u8))
    requires
        1 <= month <= 12,
        -0x1000_0000_0000 <= k <= 0x1000_0000_0000,
    ensures
        (r.0 as int, r.1 as int) == shift_month(year as int, month as int, k as int),
        1 <= r.1 <= 12,
{
    let t: i64 = (month as i64 - 1) + k;
    // Shift to a non-negative value so that truncating division is Euclidean division.
    let shifted: i64 = t + 12 * 0x2000_0000_0000;
    let q: i64 = shifted / 12 - 0x2000_0000_0000;
    let rem: i64 = shifted % 12;
    assert(q == t as int / 12 && rem == t as int % 12);
    (year as i64 + q, (rem + 1) as u8)
}

} // verus!
