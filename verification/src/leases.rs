//! Lease accounting: term validation, payment-date schedule and payment selection.
use vstd::prelude::*;

use crate::dates::{add_months_date, shift_month, CalDate, MAX_YEAR, MIN_YEAR};
use crate::error::{Conflict, DbError};
use crate::ids::{opt_uuid_ok, parse_opt_uuid, parse_uuid, uuid_parse};
use crate::recurring::add_months_clamped;
use crate::text::str_eq;
use crate::time_ops::{date_parse_iso8601, iso8601_date};

verus! {

/// Lease classifications.
pub open spec fn is_lease_type(t: Seq<char>) -> bool {
    t == "finance"@ || t == "operating"@
}

/// Payment frequencies a lease may use.
pub open spec fn is_lease_frequency(f: Seq<char>) -> bool {
    f == "monthly"@ || f == "quarterly"@ || f == "annual"@
}

/// Payments per year for a frequency (monthly for anything but quarterly and annual).
pub open spec fn periods_per_year(f: Seq<char>) -> int {
    if f == "quarterly"@ {
        4
    } else if f == "annual"@ {
        1
    } else {
        12
    }
}

/// Each payment frequency fixes the shape of the schedule: a monthly lease pays twelve
/// times a year, a month apart; a quarterly one four times, three months apart; an
/// annual one once a year, twelve months apart, so its periods are the whole years
/// between commencement and end.
pub proof fn lemma_lease_frequency_shape(f: Seq<char>, months: int)
    requires
        is_lease_frequency(f),
        months >= 0,
    ensures
        f == "monthly"@ ==> periods_per_year(f) == 12 && 12int / periods_per_year(f) == 1,
        f == "quarterly"@ ==> periods_per_year(f) == 4 && 12int / periods_per_year(f) == 3,
        f == "annual"@ ==> periods_per_year(f) == 1 && 12int / periods_per_year(f) == 12 && months
            / (12int / periods_per_year(f)) == months / 12,
{
    reveal_strlit("monthly");
    reveal_strlit("quarterly");
    reveal_strlit("annual");
    assert("monthly"@.len() == 7 && "quarterly"@.len() == 9 && "annual"@.len() == 6);
    if f == "monthly"@ {
        assert(periods_per_year(f) == 12);
        assert(12int / 12 == 1);
    } else if f == "quarterly"@ {
        assert(periods_per_year(f) == 4);
        assert(12int / 4 == 3);
    } else {
        assert(periods_per_year(f) == 1);
        assert(12int / 1 == 12);
    }
}

/// Whole months from the month of `from` to the month of `to`.
pub open spec fn months_between_spec(from: CalDate, to: CalDate) -> int {
    (to.year - from.year) * 12 + to.month - from.month
}

/// The `k`-th payment date: the commencement date advanced `k` times by `step` months,
/// clamping the day at each step.
pub open spec fn payment_date(c: CalDate, step: int, k: nat) -> CalDate
    decreases k,
{
    if k == 0 {
        c
    } else {
        add_months_date(payment_date(c, step, (k - 1) as nat), step)
    }
}

/// A parsed lease date: the named ISO-8601 parse of the text, or the error naming it.
pub open spec fn lease_date_parsed(s: Seq<char>, r: Result<CalDate, DbError>) -> bool {
    match iso8601_date(s) {
        Some(t) => r matches Ok(d) && (d.year as int, d.month as int, d.day as int) == t,
        None => r matches Err(e) && e matches DbError::Conflict(Conflict::InvalidDate(x)) && x@ == s,
    }
}

/// The validated terms of a new lease.
pub struct LeaseTerms {
    pub organization_id: u128,
    pub commencement: CalDate,
    pub end: CalDate,
    pub asset_account_id: Option<u128>,
    pub liability_account_id: Option<u128>,
    pub expense_account_id: Option<u128>,
    pub periods_per_year: i32,
    pub months_per_period: i32,
    pub num_periods: i32,
}

/// One period of a lease amortization schedule.
pub struct LeaseScheduleLine {
    pub period: i32,
    pub period_date: CalDate,
    pub payment: i64,
    pub interest: i64,
    pub principal: i64,
    pub rou_amortization: i64,
    pub lease_expense: i64,
    pub liability_balance: i64,
    pub rou_balance: i64,
    pub is_posted: bool,
}

/// Leases (ASC 842 / IFRS 16).
pub struct LeaseRepo;

impl LeaseRepo {
    /// Same day `months` months later (clamped); the target year must be representable.
    pub fn add_months(date: CalDate, months: i32) -> (r: CalDate)
        requires
            date.valid(),
            MIN_YEAR <= shift_month(date.year as int, date.month as int, months as int).0 <= MAX_YEAR,
        ensures
            r.valid(),
            r == add_months_date(date, months as int),
    {
        add_months_clamped(date, months as i64)
    }

    /// Whole months between the months of two dates.
    pub fn months_between(from: CalDate, to: CalDate) -> (r: i32)
        requires
            from.valid(),
            to.valid(),
        ensures
            r == months_between_spec(from, to),
    {
        (to.year - from.year) * 12 + to.month as i32 - from.month as i32
    }

    /// Parses an ISO-8601 date.
    pub fn parse_date(s: &str) -> (r: Result<CalDate, DbError>)
        ensures
            lease_date_parsed(s@, r),
            r matches Ok(d) ==> d.valid(),
    {
        match date_parse_iso8601(s) {
            Some(d) => Ok(d),
            None => Err(DbError::Conflict(Conflict::InvalidDate(String::from_str(s)))),
        }
    }

    /// Validates a lease before it is created, in the order the checks are made, and
    /// derives its payment schedule shape: payments per year, months per payment and the
    /// number of whole payment periods between commencement and end.
    pub fn validate_create(
        org_id: &str,
        lease_type: &str,
        payment_frequency: &str,
        commencement_date: &str,
        end_date: &str,
        asset_account_id: Option<&str>,
        liability_account_id: Option<&str>,
        expense_account_id: Option<&str>,
    ) -> (r: Result<LeaseTerms, DbError>)
        ensures
            !is_lease_type(lease_type@) ==> (r matches Err(e) && e matches DbError::Conflict(
                Conflict::InvalidLeaseType(x),
            ) && x@ == lease_type@),
            is_lease_type(lease_type@) && !is_lease_frequency(payment_frequency@) ==> (r matches Err(
                e,
            ) && e matches DbError::Conflict(Conflict::InvalidPaymentFrequency(x)) && x@
                == payment_frequency@),
            r matches Ok(t) ==> {
                &&& is_lease_type(lease_type@) && is_lease_frequency(payment_frequency@)
                &&& uuid_parse(org_id@) == Some(t.organization_id)
                &&& lease_date_parsed(commencement_date@, Ok(t.commencement))
                &&& lease_date_parsed(end_date@, Ok(t.end))
                &&& t.commencement.before(t.end)
                &&& t.periods_per_year == periods_per_year(payment_frequency@)
                &&& t.months_per_period == 12int / t.periods_per_year as int
                &&& t.num_periods == months_between_spec(t.commencement, t.end)
                    / t.months_per_period as int
                &&& payment_frequency@ == "monthly"@ ==> t.periods_per_year == 12
                    && t.months_per_period == 1
                &&& payment_frequency@ == "quarterly"@ ==> t.periods_per_year == 4
                    && t.months_per_period == 3
                &&& payment_frequency@ == "annual"@ ==> t.periods_per_year == 1
                    && t.months_per_period == 12 && t.num_periods == months_between_spec(
                    t.commencement,
                    t.end,
                ) / 12
            },
            (is_lease_type(lease_type@) && is_lease_frequency(payment_frequency@) && uuid_parse(
                org_id@,
            ) is Some && iso8601_date(commencement_date@) is Some && iso8601_date(end_date@) is Some
                && opt_uuid_ok(asset_account_id) && opt_uuid_ok(liability_account_id) && opt_uuid_ok(
                expense_account_id,
            ))
                ==> (r is Ok <==> ({
                let c = iso8601_date(commencement_date@)->0;
                let e = iso8601_date(end_date@)->0;
                c.0 < e.0 || (c.0 == e.0 && c.1 < e.1) || (c.0 == e.0 && c.1 == e.1 && c.2 < e.2)
            })),
            (is_lease_type(lease_type@) && is_lease_frequency(payment_frequency@) && uuid_parse(
                org_id@,
            ) is Some && iso8601_date(commencement_date@) is Some && iso8601_date(end_date@) is Some
                && !({
                let c = iso8601_date(commencement_date@)->0;
                let e = iso8601_date(end_date@)->0;
                c.0 < e.0 || (c.0 == e.0 && c.1 < e.1) || (c.0 == e.0 && c.1 == e.1 && c.2 < e.2)
            })) ==> r == Err::<LeaseTerms, DbError>(DbError::Conflict(Conflict::EndNotAfterCommencement)),
    {
        proof {
            reveal_strlit("finance");
            reveal_strlit("operating");
            reveal_strlit("monthly");
            reveal_strlit("quarterly");
            reveal_strlit("annual");
            assert("monthly"@.len() == 7 && "quarterly"@.len() == 9 && "annual"@.len() == 6);
        }
        if !(str_eq(lease_type, "finance") || str_eq(lease_type, "operating")) {
            return Err(DbError::Conflict(Conflict::InvalidLeaseType(String::from_str(lease_type))));
        }
        if !(str_eq(payment_frequency, "monthly") || str_eq(payment_frequency, "quarterly")
            || str_eq(payment_frequency, "annual")) {
            return Err(
                DbError::Conflict(
                    Conflict::InvalidPaymentFrequency(String::from_str(payment_frequency)),
                ),
            );
        }
        let org = parse_uuid(org_id)?;
        let commencement = Self::parse_date(commencement_date)?;
        let end = Self::parse_date(end_date)?;
        if end.le(&commencement) {
            return Err(DbError::Conflict(Conflict::EndNotAfterCommencement));
        }
        let asset = parse_opt_uuid(asset_account_id)?;
        let liability = parse_opt_uuid(liability_account_id)?;
        let expense = parse_opt_uuid(expense_account_id)?;
        let num_months = Self::months_between(commencement, end);
        let ppy: i32 = if str_eq(payment_frequency, "quarterly") {
            4
        } else if str_eq(payment_frequency, "annual") {
            1
        } else {
            12
        };
        let mpp: i32 = 12 / ppy;
        proof {
            assert(num_months >= 0);
            if ppy == 12 {
                assert(mpp == 1);
            } else if ppy == 4 {
                assert(mpp == 3);
            } else {
                assert(mpp == 12);
            }
        }
        let num_periods: i32 = num_months / mpp;
        Ok(
            LeaseTerms {
                organization_id: org,
                commencement,
                end,
                asset_account_id: asset,
                liability_account_id: liability,
                expense_account_id: expense,
                periods_per_year: ppy,
                months_per_period: mpp,
                num_periods,
            },
        )
    }

    /// The payment dates of a lease: `num_periods` dates starting at commencement, each
    /// `months_per_period` months after the previous one (day clamped at every step).
    pub fn schedule_dates(commencement: CalDate, months_per_period: i32, num_periods: i32) -> (r:
        Vec<CalDate>)
        requires
            commencement.valid(),
            1 <= months_per_period <= 12,
            num_periods >= 0,
            commencement.month_index() + (num_periods + 1) * months_per_period < (MAX_YEAR + 1) * 12,
        ensures
            r.len() == num_periods,
            forall|k: int| 0 <= k < r.len() ==> #[trigger] r[k] == payment_date(
                commencement,
                months_per_period as int,
                k as nat,
            ),
            forall|k: int| 0 <= k < r.len() ==> (#[trigger] r[k]).valid(),
    {
        let mut out: Vec<CalDate> = Vec::new();
        let mut date = commencement;
        let mut k: i32 = 0;
        while k < num_periods
            invariant
                0 <= k <= num_periods,
                1 <= months_per_period <= 12,
                commencement.valid(),
                commencement.month_index() + (num_periods + 1) * months_per_period < (MAX_YEAR + 1)
                    * 12,
                out.len() == k,
                date.valid(),
                date == payment_date(commencement, months_per_period as int, k as nat),
                date.month_index() == commencement.month_index() + k * months_per_period,
                forall|j: int| 0 <= j < k ==> #[trigger] out@[j] == payment_date(
                    commencement,
                    months_per_period as int,
                    j as nat,
                ),
                forall|j: int| 0 <= j < k ==> (#[trigger] out@[j]).valid(),
            decreases num_periods - k,
        {
            out.push(date);
            proof {
                assert(date.month_index() + months_per_period < (MAX_YEAR + 1) * 12) by (
                nonlinear_arith)
                    requires
                        date.month_index() == commencement.month_index() + k * months_per_period,
                        commencement.month_index() + (num_periods + 1) * months_per_period < (
                        MAX_YEAR + 1) * 12,
                        k < num_periods,
                        months_per_period >= 1,
                ;
                assert(commencement.month_index() >= MIN_YEAR * 12);
                assert(MIN_YEAR <= shift_month(date.year as int, date.month as int, months_per_period as int).0 <= MAX_YEAR);
            }
            let next = Self::add_months(date, months_per_period);
            proof {
                assert(next.month_index() == date.month_index() + months_per_period);
                assert(next.month_index() == commencement.month_index() + (k + 1) * months_per_period) by (nonlinear_arith)
                    requires
                        next.month_index() == date.month_index() + months_per_period,
                        date.month_index() == commencement.month_index() + k * months_per_period,
                ;
            }
            date = next;
            k = k + 1;
        }
        out
    }

    /// The schedule line a payment is recorded against: the line with the given period
    /// date; refused when there is none or it is already posted.
    pub fn select_payment_line(lines: &Vec<LeaseScheduleLine>, period_date: CalDate) -> (r: Result<
        usize,
        DbError,
    >)
        ensures
            r matches Ok(i) ==> i < lines.len() && lines[i as int].period_date == period_date
                && !lines[i as int].is_posted && forall|j: int|
                0 <= j < i ==> lines[j].period_date != period_date,
            r matches Err(e) ==> (e == DbError::Conflict(Conflict::PeriodNotInSchedule) && forall|
                j: int,
            | 0 <= j < lines.len() ==> lines[j].period_date != period_date) || (e
                == DbError::Conflict(Conflict::PaymentAlreadyRecorded) && exists|i: int|
                0 <= i < lines.len() && lines[i].period_date == period_date && lines[i].is_posted
                    && forall|j: int| 0 <= j < i ==> lines[j].period_date != period_date),
    {
        let mut i: usize = 0;
        while i < lines.len()
            invariant
                i <= lines.len(),
                forall|j: int| 0 <= j < i ==> lines[j].period_date != period_date,
            decreases lines.len() - i,
        {
            if lines[i].period_date == period_date {
                if lines[i].is_posted {
                    return Err(DbError::Conflict(Conflict::PaymentAlreadyRecorded));
                }
                return Ok(i);
            }
            i = i + 1;
        }
        Err(DbError::Conflict(Conflict::PeriodNotInSchedule))
    }
}

} // verus!
