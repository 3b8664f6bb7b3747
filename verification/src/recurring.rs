//! Calendar stepping for recurring documents: journal-entry templates, recurring bills
//! and invoices, subscriptions, report schedules, payment terms and leases.
use vstd::prelude::*;

use crate::dates::{
    days_in_month, max_day_number, min_day_number, min_int, month_length, shift_month,
    shift_month_exec, valid_ymd, CalDate, MAX_YEAR, MIN_YEAR,
};
use crate::error::{Conflict, DbError, Template};
use crate::text::str_eq;
use crate::time_ops::date_add_days;

verus! {

/// Truncating division (Rust's `/` on signed integers) by a positive divisor.
pub open spec fn div_trunc(a: int, d: int) -> int {
    if a >= 0 {
        a / d
    } else {
        -((-a) / d)
    }
}

/// Truncating remainder (Rust's `%` on signed integers) by a positive divisor.
pub open spec fn rem_trunc(a: int, d: int) -> int {
    a - div_trunc(a, d) * d
}

/// The date `n` days after `d` (or before, for negative `n`).
pub open spec fn days_later_is(d: CalDate, n: int, r: CalDate) -> bool {
    r.valid() && r.day_number() == d.day_number() + n
}

/// `d + n` days stays within the supported range.
pub open spec fn days_later_in_range(d: CalDate, n: int) -> bool {
    min_day_number() <= d.day_number() + n <= max_day_number()
}

/// The year reached by moving `k` months from `d`.
pub open spec fn shifted_year(d: CalDate, k: int) -> int {
    shift_month(d.year as int, d.month as int, k).0
}

/// Adds `n` days where the caller has established that the result is representable.
pub fn add_days_in_range(d: CalDate, n: i64) -> (r: CalDate)
    requires
        d.valid(),
        -1_000_000_000 <= n <= 1_000_000_000,
        days_later_in_range(d, n as int),
    ensures
        days_later_is(d, n as int, r),
{
    match date_add_days(d, n) {
        Some(x) => x,
        None => {
            proof {
                assert(false);
            }
            d
        },
    }
}

/// Same day of month `k` months later, clamped to the month's length; the caller has
/// established that the target year is representable.
pub fn add_months_clamped(d: CalDate, k: i64) -> (r: CalDate)
    requires
        d.valid(),
        -0x1000_0000_0000 <= k <= 0x1000_0000_0000,
        MIN_YEAR <= shifted_year(d, k as int) <= MAX_YEAR,
    ensures
        r.valid(),
        d.months_later_is(k as int, r),
{
    let (ny, nm) = shift_month_exec(d.year, d.month, k);
    let y = ny as i32;
    let max_day = days_in_month(y, nm);
    let day = if d.day < max_day {
        d.day
    } else {
        max_day
    };
    CalDate { year: y, month: nm, day }
}

// ── Recurring journal entries ───────────────────────────────────────────────────

/// How a recurring journal-entry frequency moves its date: `(true, n)` adds `n` months
/// (day clamped), `(false, n)` adds `n` days. Unknown frequencies add 30 days.
pub open spec fn rje_step(frequency: Seq<char>) -> (bool, int) {
    if frequency == "daily"@ {
        (false, 1)
    } else if frequency == "weekly"@ {
        (false, 7)
    } else if frequency == "biweekly"@ {
        (false, 14)
    } else if frequency == "monthly"@ {
        (true, 1)
    } else if frequency == "quarterly"@ {
        (true, 3)
    } else if frequency == "yearly"@ {
        (true, 12)
    } else {
        (false, 30)
    }
}

/// The stepped date is representable.
pub open spec fn rje_step_in_range(date: CalDate, frequency: Seq<char>) -> bool {
    let (by_month, n) = rje_step(frequency);
    if by_month {
        shifted_year(date, n) <= MAX_YEAR
    } else {
        days_later_in_range(date, n)
    }
}

/// `r` is `date` advanced by one period of `frequency`.
pub open spec fn rje_advanced(date: CalDate, frequency: Seq<char>, r: CalDate) -> bool {
    let (by_month, n) = rje_step(frequency);
    if by_month {
        r.valid() && date.months_later_is(n, r)
    } else {
        days_later_is(date, n, r)
    }
}

/// The frequencies a recurring journal entry may use.
pub open spec fn is_rje_frequency(f: Seq<char>) -> bool {
    f == "daily"@ || f == "weekly"@ || f == "biweekly"@ || f == "monthly"@ || f == "quarterly"@
        || f == "yearly"@
}

/// What to write back after posting a recurring journal entry: the next date and
/// whether the template stays active.
pub struct PostNextPlan {
    pub new_next_date: CalDate,
    pub still_active: bool,
}

/// Recurring journal entry templates.
pub struct RecurringJournalEntryRepo;

impl RecurringJournalEntryRepo {
    /// Advances a date by one period of the frequency.
    pub fn advance_date(date: CalDate, frequency: &str) -> (r: CalDate)
        requires
            date.valid(),
            rje_step_in_range(date, frequency@),
        ensures
            rje_advanced(date, frequency@, r),
    {
        proof {
            reveal_strlit("daily");
            reveal_strlit("weekly");
            reveal_strlit("biweekly");
            reveal_strlit("monthly");
            reveal_strlit("quarterly");
            reveal_strlit("yearly");
        }
        if str_eq(frequency, "daily") {
            add_days_in_range(date, 1)
        } else if str_eq(frequency, "weekly") {
            add_days_in_range(date, 7)
        } else if str_eq(frequency, "biweekly") {
            add_days_in_range(date, 14)
        } else if str_eq(frequency, "monthly") {
            add_months_clamped(date, 1)
        } else if str_eq(frequency, "quarterly") {
            add_months_clamped(date, 3)
        } else if str_eq(frequency, "yearly") {
            add_months_clamped(date, 12)
        } else {
            add_days_in_range(date, 30)
        }
    }

    /// Accepts the frequencies a template may be created or updated with.
    pub fn validate_frequency(f: &str) -> (r: Result<(), DbError>)
        ensures
            r is Ok <==> is_rje_frequency(f@),
            r matches Err(e) ==> e matches DbError::Conflict(Conflict::InvalidFrequency(s))
                && s@ == f@,
    {
        if str_eq(f, "daily") || str_eq(f, "weekly") || str_eq(f, "biweekly") || str_eq(
            f,
            "monthly",
        ) || str_eq(f, "quarterly") || str_eq(f, "yearly") {
            Ok(())
        } else {
            Err(DbError::Conflict(Conflict::InvalidFrequency(String::from_str(f))))
        }
    }

    /// Decides the outcome of posting the next entry of a template: inactive templates
    /// are refused; otherwise the date advances by one period and the template stays
    /// active while the new date is on or before the end date.
    pub fn plan_post_next(
        is_active: bool,
        next_date: CalDate,
        frequency: &str,
        end_date: Option<CalDate>,
    ) -> (r: Result<PostNextPlan, DbError>)
        requires
            next_date.valid(),
            rje_step_in_range(next_date, frequency@),
        ensures
            !is_active ==> r == Err::<PostNextPlan, DbError>(
                DbError::Conflict(Conflict::Inactive(Template::JournalEntry)),
            ),
            is_active ==> (r matches Ok(p) && rje_advanced(next_date, frequency@, p.new_next_date)
                && p.still_active == still_active_after(p.new_next_date, end_date)),
    {
        if !is_active {
            return Err(DbError::Conflict(Conflict::Inactive(Template::JournalEntry)));
        }
        let new_next_date = Self::advance_date(next_date, frequency);
        let still_active = match end_date {
            None => true,
            Some(end) => new_next_date.le(&end),
        };
        Ok(PostNextPlan { new_next_date, still_active })
    }
}

// ── Recurring bills and invoices ───────────────────────────────────────────────

/// Months added by one "monthly" or "quarterly" step of a recurring document, from the
/// month number `m`: the raw count of months the year and month are taken from.
pub open spec fn recurring_month_count(m: int, interval: int, quarterly: bool) -> int {
    if quarterly {
        m + interval * 3 - 1
    } else {
        m + interval - 1
    }
}

/// Month chosen from the raw count: the truncating remainder plus one when that is a month
/// number, otherwise January.
pub open spec fn recurring_month(months: int) -> int {
    let raw = rem_trunc(months, 12) + 1;
    if raw >= 1 {
        raw
    } else {
        1
    }
}

/// The date a recurring document moves to from `current`.
pub open spec fn recurring_next_date(
    current: CalDate,
    frequency: Seq<char>,
    interval: int,
    r: CalDate,
) -> bool {
    if frequency == "weekly"@ {
        days_later_is(current, interval * 7, r)
    } else if frequency == "monthly"@ || frequency == "quarterly"@ {
        let months = recurring_month_count(
            current.month as int,
            interval,
            frequency == "quarterly"@,
        );
        let y = current.year + div_trunc(months, 12);
        let m = recurring_month(months);
        let d = min_int(current.day as int, month_length(y, m));
        if valid_ymd(y, m, d) {
            r.is_ymd(y, m, d)
        } else {
            r == current
        }
    } else {
        let y = current.year + interval;
        let d = min_int(current.day as int, month_length(y, current.month as int));
        if valid_ymd(y, current.month as int, d) {
            r.is_ymd(y, current.month as int, d)
        } else {
            r == current
        }
    }
}

/// The year a monthly, quarterly or yearly step lands in.
pub open spec fn recurring_target_year(current: CalDate, frequency: Seq<char>, interval: int) -> int {
    if frequency == "monthly"@ || frequency == "quarterly"@ {
        let months = recurring_month_count(
            current.month as int,
            interval,
            frequency == "quarterly"@,
        );
        current.year + div_trunc(months, 12)
    } else {
        current.year + interval
    }
}

/// A forward step lands strictly later: weekly steps by their days, the others in the
/// calendar.
pub open spec fn recurring_advances(
    current: CalDate,
    frequency: Seq<char>,
    interval: int,
    r: CalDate,
) -> bool {
    (interval >= 1 && (frequency == "weekly"@ || recurring_target_year(current, frequency, interval)
        <= MAX_YEAR)) ==> if frequency == "weekly"@ {
        r.day_number() > current.day_number()
    } else {
        current.before(r)
    }
}

/// The step cannot fail: weekly steps stay representable, yearly steps do not overflow the
/// year arithmetic.
pub open spec fn recurring_step_ok(current: CalDate, frequency: Seq<char>, interval: int) -> bool {
    if frequency == "weekly"@ {
        days_later_in_range(current, interval * 7)
    } else if frequency == "monthly"@ || frequency == "quarterly"@ {
        true
    } else {
        i32::MIN <= current.year + interval <= i32::MAX
    }
}

/// A quarterly step of `k` periods is a monthly step of `3 * k` months: both land on the
/// same date.
pub proof fn lemma_quarterly_is_three_monthly(current: CalDate, k: int, r: CalDate)
    ensures
        recurring_next_date(current, "quarterly"@, k, r) <==> recurring_next_date(
            current,
            "monthly"@,
            3 * k,
            r,
        ),
{
    reveal_strlit("weekly");
    reveal_strlit("monthly");
    reveal_strlit("quarterly");
    assert("weekly"@.len() == 6 && "monthly"@.len() == 7 && "quarterly"@.len() == 9);
}

/// A forward monthly step of `k` lands `k` calendar months later, a quarterly step `3 * k`
/// months later, on the same day of the month clamped to the target month's length,
/// whenever the target year is supported.
pub proof fn lemma_month_steps_land_months_later(
    current: CalDate,
    frequency: Seq<char>,
    k: int,
    r: CalDate,
)
    requires
        current.valid(),
        k >= 0,
        frequency == "monthly"@ || frequency == "quarterly"@,
        recurring_next_date(current, frequency, k, r),
        current.month_index() + (if frequency == "quarterly"@ {
            3 * k
        } else {
            k
        }) < (MAX_YEAR + 1) * 12,
    ensures
        r.month_index() == current.month_index() + (if frequency == "quarterly"@ {
            3 * k
        } else {
            k
        }),
        r.day == min_int(current.day as int, month_length(r.year as int, r.month as int)),
        r.valid(),
{
    reveal_strlit("weekly");
    reveal_strlit("monthly");
    reveal_strlit("quarterly");
    assert("weekly"@.len() == 6 && "monthly"@.len() == 7 && "quarterly"@.len() == 9);
    let n = if frequency == "quarterly"@ {
        3 * k
    } else {
        k
    };
    let months = current.month as int + n - 1;
    assert(months == recurring_month_count(
        current.month as int,
        k,
        frequency == "quarterly"@,
    ));
    assert(months >= 0);
    assert(div_trunc(months, 12) == months / 12);
    assert(rem_trunc(months, 12) == months % 12);
    let y = current.year + months / 12;
    let m = months % 12 + 1;
    assert(recurring_month(months) == m);
    assert(12 * (months / 12) + months % 12 == months);
    let d = min_int(current.day as int, month_length(y, m));
    assert(1 <= month_length(y, m));
    assert(valid_ymd(y, m, d));
}

/// A weekly step of `k` lands exactly `7 * k` days later; any other frequency but
/// monthly and quarterly steps `k` years, keeping the month and clamping the day to the
/// month's length, whenever the target year is supported.
pub proof fn lemma_week_and_year_steps(current: CalDate, frequency: Seq<char>, k: int, r: CalDate)
    requires
        current.valid(),
        recurring_next_date(current, frequency, k, r),
    ensures
        frequency == "weekly"@ ==> r.day_number() == current.day_number() + 7 * k,
        (frequency != "weekly"@ && frequency != "monthly"@ && frequency != "quarterly"@ && MIN_YEAR
            <= current.year + k <= MAX_YEAR) ==> {
            &&& r.year == current.year + k
            &&& r.month == current.month
            &&& r.day == min_int(current.day as int, month_length(r.year as int, r.month as int))
        },
{
    let y = current.year + k;
    if frequency != "weekly"@ && frequency != "monthly"@ && frequency != "quarterly"@ && MIN_YEAR
        <= y <= MAX_YEAR {
        let d = min_int(current.day as int, month_length(y, current.month as int));
        assert(1 <= month_length(y, current.month as int));
        assert(valid_ymd(y, current.month as int, d));
    }
}

fn recurring_next_date_exec(current: CalDate, frequency: &str, interval: i32) -> (r: CalDate)
    requires
        current.valid(),
        recurring_step_ok(current, frequency@, interval as int),
    ensures
        recurring_next_date(current, frequency@, interval as int, r),
        recurring_advances(current, frequency@, interval as int, r),
        r.valid(),
{
    proof {
        reveal_strlit("weekly");
        reveal_strlit("monthly");
        reveal_strlit("quarterly");
    }
    if str_eq(frequency, "weekly") {
        add_days_in_range(current, interval as i64 * 7)
    } else if str_eq(frequency, "monthly") || str_eq(frequency, "quarterly") {
        let quarterly = str_eq(frequency, "quarterly");
        let months: i64 = if quarterly {
            current.month as i64 + interval as i64 * 3 - 1
        } else {
            current.month as i64 + interval as i64 - 1
        };
        let q: i64 = months / 12;
        let rem: i64 = months % 12;
        assert(q == div_trunc(months as int, 12) && rem == rem_trunc(months as int, 12));
        let years: i64 = current.year as i64 + q;
        let raw: i64 = rem + 1;
        let month: u8 = if raw >= 1 {
            raw as u8
        } else {
            1
        };
        let y32 = years as i32;
        let dim = days_in_month(y32, month);
        let day = if current.day < dim {
            current.day
        } else {
            dim
        };
        match CalDate::new(y32, month, day) {
            Some(x) => x,
            None => current,
        }
    } else {
        let y = current.year + interval;
        if y < MIN_YEAR || y > MAX_YEAR {
            return current;
        }
        let dim = days_in_month(y, current.month);
        let day = if current.day < dim {
            current.day
        } else {
            dim
        };
        match CalDate::new(y, current.month, day) {
            Some(x) => x,
            None => current,
        }
    }
}

/// What to write back after generating a document from a recurring template.
pub struct GeneratePlan {
    /// The date of the generated document.
    pub document_date: CalDate,
    /// Its due date (document date plus the template's days-due).
    pub due_date: CalDate,
    /// The template's next date.
    pub new_next_date: CalDate,
    /// Whether the template stays active.
    pub still_active: bool,
}

/// A template stays active while its next date is on or before its end date (if any).
pub open spec fn still_active_after(next: CalDate, end_date: Option<CalDate>) -> bool {
    match end_date {
        None => true,
        Some(end) => next.before_eq(end),
    }
}

/// `p` is the plan for generating a document from a template due on `next_due_date`.
pub open spec fn generate_plan_ok(
    p: GeneratePlan,
    next_due_date: CalDate,
    days_due: int,
    frequency: Seq<char>,
    interval: int,
    end_date: Option<CalDate>,
) -> bool {
    &&& p.document_date == next_due_date
    &&& days_later_is(next_due_date, days_due, p.due_date)
    &&& recurring_next_date(next_due_date, frequency, interval, p.new_next_date)
    &&& recurring_advances(next_due_date, frequency, interval, p.new_next_date)
    &&& p.still_active == still_active_after(p.new_next_date, end_date)
}

/// Shared decision of recurring bills and invoices.
fn plan_generate_document(
    kind: Template,
    is_active: bool,
    next_due_date: CalDate,
    days_due: i32,
    frequency: &str,
    interval: i32,
    end_date: Option<CalDate>,
) -> (r: Result<GeneratePlan, DbError>)
    requires
        next_due_date.valid(),
        days_later_in_range(next_due_date, days_due as int),
        recurring_step_ok(next_due_date, frequency@, interval as int),
    ensures
        !is_active ==> r == Err::<GeneratePlan, DbError>(
            DbError::Conflict(Conflict::Inactive(kind)),
        ),
        is_active ==> (r matches Ok(p) && generate_plan_ok(
            p,
            next_due_date,
            days_due as int,
            frequency@,
            interval as int,
            end_date,
        )),
{
    if !is_active {
        return Err(DbError::Conflict(Conflict::Inactive(kind)));
    }
    let due_date = add_days_in_range(next_due_date, days_due as i64);
    let new_next_date = recurring_next_date_exec(next_due_date, frequency, interval);
    let still_active = match end_date {
        None => true,
        Some(end) => new_next_date.le(&end),
    };
    Ok(GeneratePlan { document_date: next_due_date, due_date, new_next_date, still_active })
}

/// Recurring vendor-bill templates.
pub struct RecurringBillRepo;

impl RecurringBillRepo {
    /// The template's next due date after `current`.
    pub fn next_date(current: CalDate, frequency: &str, interval: i32) -> (r: CalDate)
        requires
            current.valid(),
            recurring_step_ok(current, frequency@, interval as int),
        ensures
            recurring_next_date(current, frequency@, interval as int, r),
            recurring_advances(current, frequency@, interval as int, r),
            r.valid(),
    {
        recurring_next_date_exec(current, frequency, interval)
    }

    /// Decides the outcome of generating a bill from a template.
    pub fn plan_generate(
        is_active: bool,
        next_due_date: CalDate,
        days_due: i32,
        frequency: &str,
        interval: i32,
        end_date: Option<CalDate>,
    ) -> (r: Result<GeneratePlan, DbError>)
        requires
            next_due_date.valid(),
            days_later_in_range(next_due_date, days_due as int),
            recurring_step_ok(next_due_date, frequency@, interval as int),
        ensures
            !is_active ==> r == Err::<GeneratePlan, DbError>(
                DbError::Conflict(Conflict::Inactive(Template::Bill)),
            ),
            is_active ==> (r matches Ok(p) && generate_plan_ok(
            p,
            next_due_date,
            days_due as int,
            frequency@,
            interval as int,
            end_date,
        )),
    {
        plan_generate_document(Template::Bill, is_active, next_due_date, days_due, frequency, interval, end_date)
    }
}

/// Recurring invoice templates.
pub struct RecurringInvoiceRepo;

impl RecurringInvoiceRepo {
    /// The template's next due date after `current`.
    pub fn next_date(current: CalDate, frequency: &str, interval: i32) -> (r: CalDate)
        requires
            current.valid(),
            recurring_step_ok(current, frequency@, interval as int),
        ensures
            recurring_next_date(current, frequency@, interval as int, r),
            recurring_advances(current, frequency@, interval as int, r),
            r.valid(),
    {
        recurring_next_date_exec(current, frequency, interval)
    }

    /// Decides the outcome of generating an invoice from a template.
    pub fn plan_generate(
        is_active: bool,
        next_due_date: CalDate,
        days_due: i32,
        frequency: &str,
        interval: i32,
        end_date: Option<CalDate>,
    ) -> (r: Result<GeneratePlan, DbError>)
        requires
            next_due_date.valid(),
            days_later_in_range(next_due_date, days_due as int),
            recurring_step_ok(next_due_date, frequency@, interval as int),
        ensures
            !is_active ==> r == Err::<GeneratePlan, DbError>(
                DbError::Conflict(Conflict::Inactive(Template::Invoice)),
            ),
            is_active ==> (r matches Ok(p) && generate_plan_ok(
            p,
            next_due_date,
            days_due as int,
            frequency@,
            interval as int,
            end_date,
        )),
    {
        plan_generate_document(Template::Invoice, is_active, next_due_date, days_due, frequency, interval, end_date)
    }
}

} // verus!

verus! {

// ── Report schedules ────────────────────────────────────────────────────────────

/// Frequencies a report schedule may use.
pub open spec fn is_report_frequency(f: Seq<char>) -> bool {
    f == "daily"@ || f == "weekly"@ || f == "monthly"@ || f == "quarterly"@
}

/// `r` is `d` moved `months` months forward with the day clamped, or `d` itself when the
/// target year leaves the supported range.
pub open spec fn schedule_months_later(d: CalDate, months: int, r: CalDate) -> bool {
    if shifted_year(d, months) <= MAX_YEAR {
        d.months_later_is(months, r)
    } else {
        r == d
    }
}

/// The date of the next run after one on `d`.
pub open spec fn next_run_date_is(frequency: Seq<char>, d: CalDate, r: CalDate) -> bool {
    if frequency == "daily"@ {
        days_later_is(d, 1, r)
    } else if frequency == "weekly"@ {
        days_later_is(d, 7, r)
    } else if frequency == "quarterly"@ {
        schedule_months_later(d, 3, r)
    } else {
        schedule_months_later(d, 1, r)
    }
}

/// Scheduled report runs.
pub struct ReportScheduleRepo;

impl ReportScheduleRepo {
    /// Accepts the frequencies a schedule may be created or updated with.
    pub fn validate_frequency(frequency: &str) -> (r: Result<(), DbError>)
        ensures
            r is Ok <==> is_report_frequency(frequency@),
            r is Err ==> r == Err::<(), DbError>(
                DbError::Conflict(Conflict::InvalidScheduleFrequency),
            ),
    {
        if str_eq(frequency, "daily") || str_eq(frequency, "weekly") || str_eq(frequency, "monthly")
            || str_eq(frequency, "quarterly") {
            Ok(())
        } else {
            Err(DbError::Conflict(Conflict::InvalidScheduleFrequency))
        }
    }

    /// Same day `months` months later (clamped to the month's length); the date is kept
    /// when the target year leaves the supported range.
    pub fn add_months(d: CalDate, months: u32) -> (r: CalDate)
        requires
            d.valid(),
            months <= 0x1000_0000,
        ensures
            schedule_months_later(d, months as int, r),
            r.valid(),
    {
        let (ny, nm) = shift_month_exec(d.year, d.month, months as i64);
        if ny > MAX_YEAR as i64 {
            d
        } else {
            add_months_clamped(d, months as i64)
        }
    }

    /// The calendar date of the next run after a run on `d` (the time of day is kept by
    /// the caller).
    pub fn next_run_date(frequency: &str, d: CalDate) -> (r: CalDate)
        requires
            d.valid(),
            days_later_in_range(d, 7),
        ensures
            next_run_date_is(frequency@, d, r),
            r.valid(),
    {
        proof {
            reveal_strlit("daily");
            reveal_strlit("weekly");
            reveal_strlit("quarterly");
        }
        if str_eq(frequency, "daily") {
            add_days_in_range(d, 1)
        } else if str_eq(frequency, "weekly") {
            add_days_in_range(d, 7)
        } else if str_eq(frequency, "quarterly") {
            Self::add_months(d, 3)
        } else {
            Self::add_months(d, 1)
        }
    }
}

// ── Payment terms ───────────────────────────────────────────────────────────────

/// Payment terms (net days).
pub struct PaymentTermsRepo;

impl PaymentTermsRepo {
    /// The due date of an invoice issued on `issue_date` under net-`net_days` terms.
    pub fn compute_due_date(issue_date: CalDate, net_days: i32) -> (r: CalDate)
        requires
            issue_date.valid(),
            days_later_in_range(issue_date, net_days as int),
        ensures
            days_later_is(issue_date, net_days as int, r),
    {
        add_days_in_range(issue_date, net_days as i64)
    }
}

} // verus!
