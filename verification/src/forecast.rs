//! The cash-flow forecast: open receivables and payables bucketed by week of due date,
//! with a running cash balance.
use vstd::prelude::*;

use crate::dates::{max_day_number, min_day_number, CalDate};
use crate::recurring::div_trunc;
use crate::reports::ReportRepo;
use crate::time_ops::{date_add_days, date_days_between, MAX_DURATION_DAYS};

verus! {

/// An open amount due on a date.
#[derive(Debug, Clone, Copy, PartialEq, Eq, Structural)]
pub struct DueAmount {
    pub due_date: CalDate,
    pub amount: i64,
}

/// A week of the forecast.
#[derive(Debug, Clone, Copy, PartialEq, Eq, Structural)]
pub struct ForecastBucket {
    pub period_start: CalDate,
    pub period_end: CalDate,
    pub inflows: i64,
    pub outflows: i64,
    pub net: i64,
    pub running_balance: i64,
}

/// The forecast.
pub struct CashFlowForecast {
    pub opening_balance: i64,
    pub buckets: Vec<ForecastBucket>,
    pub closing_balance: i64,
}

/// Number of weeks for a horizon of `days`: whole weeks, at least one.
pub open spec fn week_count(days: int) -> int {
    if div_trunc(days, 7) >= 1 {
        div_trunc(days, 7)
    } else {
        1
    }
}

/// The week an amount due `diff` days after the start falls in: earlier dates in the
/// first week, later ones than the horizon in the last.
pub open spec fn week_of(diff: int, wc: int) -> int {
    let w = if diff > 0 {
        diff / 7
    } else {
        0
    };
    if w < wc - 1 {
        w
    } else {
        wc - 1
    }
}

/// The week of an amount.
pub open spec fn week_of_due(d: DueAmount, from: CalDate, wc: int) -> int {
    week_of(d.due_date.day_number() - from.day_number(), wc)
}

/// Sum of the amounts falling in week `k`.
pub open spec fn week_sum(rows: Seq<DueAmount>, from: CalDate, wc: int, k: int) -> int
    decreases rows.len(),
{
    if rows.len() == 0 {
        0
    } else {
        week_sum(rows.drop_last(), from, wc, k) + if week_of_due(rows.last(), from, wc) == k {
            rows.last().amount as int
        } else {
            0
        }
    }
}

/// Sum of the amounts falling in weeks up to `k`.
pub open spec fn upto_sum(rows: Seq<DueAmount>, from: CalDate, wc: int, k: int) -> int
    decreases rows.len(),
{
    if rows.len() == 0 {
        0
    } else {
        upto_sum(rows.drop_last(), from, wc, k) + if week_of_due(rows.last(), from, wc) <= k {
            rows.last().amount as int
        } else {
            0
        }
    }
}

/// Amounts of rows.
pub open spec fn due_values(rows: Seq<DueAmount>) -> Seq<int> {
    rows.map_values(|d: DueAmount| d.amount as int)
}

/// `b` is week `k` of the forecast from `from` over `days` days, given the weeks before.
pub open spec fn bucket_ok(
    b: ForecastBucket,
    k: int,
    from: CalDate,
    days: int,
    ar: Seq<DueAmount>,
    ap: Seq<DueAmount>,
    opening: int,
) -> bool {
    let wc = week_count(days);
    &&& b.period_start.valid()
    &&& b.period_start.day_number() == from.day_number() + 7 * k
    &&& b.period_end.valid()
    &&& b.period_end.day_number() == if from.day_number() + 7 * k + 6 < from.day_number() + days {
        from.day_number() + 7 * k + 6
    } else {
        from.day_number() + days
    }
    &&& b.inflows == week_sum(ar, from, wc, k)
    &&& b.outflows == week_sum(ap, from, wc, k)
    &&& b.net == b.inflows - b.outflows
    &&& b.running_balance == opening + upto_sum(ar, from, wc, k) - upto_sum(ap, from, wc, k)
}

/// Every running week sum stays within 64 bits as the amounts are added in turn.
pub open spec fn week_sums_fit(rows: Seq<DueAmount>, from: CalDate, wc: int) -> bool {
    forall|j: int, k: int|
        0 <= j <= rows.len() && 0 <= k < wc ==> i64::MIN <= #[trigger] week_sum(rows.take(j), from, wc, k)
            <= i64::MAX
}

/// The dates and sums of the forecast stay in range: each week's running inflows and
/// outflows, its net, and the running balance after it.
pub open spec fn forecast_fits(
    from: CalDate,
    days: int,
    ar: Seq<DueAmount>,
    ap: Seq<DueAmount>,
    opening: int,
) -> bool {
    let wc = week_count(days);
    &&& forecast_fits_dates(from, days)
    &&& week_sums_fit(ar, from, wc)
    &&& week_sums_fit(ap, from, wc)
    &&& forall|k: int|
        0 <= k < wc ==> i64::MIN <= #[trigger] week_sum(ar, from, wc, k) - week_sum(ap, from, wc, k)
            <= i64::MAX
    &&& forall|k: int|
        0 <= k < wc ==> i64::MIN <= opening + #[trigger] upto_sum(ar, from, wc, k) - upto_sum(
            ap,
            from,
            wc,
            k,
        ) <= i64::MAX
    &&& forall|i: int| 0 <= i < ar.len() ==> (#[trigger] ar[i]).due_date.valid()
    &&& forall|i: int| 0 <= i < ap.len() ==> (#[trigger] ap[i]).due_date.valid()
}

// ── lemmas ─────────────────────────────────────────────────────────────────────

proof fn lemma_upto_step(rows: Seq<DueAmount>, from: CalDate, wc: int, k: int)
    requires
        wc >= 1,
    ensures
        upto_sum(rows, from, wc, k) == (if k > 0 {
            upto_sum(rows, from, wc, k - 1)
        } else {
            0
        }) + week_sum(rows, from, wc, k),
        k == 0 ==> upto_sum(rows, from, wc, 0) == week_sum(rows, from, wc, 0),
    decreases rows.len(),
{
    if rows.len() > 0 {
        lemma_upto_step(rows.drop_last(), from, wc, k);
        let w = week_of_due(rows.last(), from, wc);
        assert(w >= 0);
    }
}

proof fn lemma_week_take(rows: Seq<DueAmount>, from: CalDate, wc: int, k: int, i: int)
    requires
        0 <= i < rows.len(),
    ensures
        week_sum(rows.take(i + 1), from, wc, k) == week_sum(rows.take(i), from, wc, k) + if week_of_due(
            rows[i],
            from,
            wc,
        ) == k {
            rows[i].amount as int
        } else {
            0
        },
{
    assert(rows.take(i + 1).drop_last() =~= rows.take(i));
}

// ── computation ────────────────────────────────────────────────────────────────

fn week_index(due: CalDate, from: CalDate, wc: usize) -> (r: usize)
    requires
        due.valid(),
        from.valid(),
        wc >= 1,
    ensures
        r == week_of(due.day_number() - from.day_number(), wc as int),
        r < wc,
{
    let diff = date_days_between(due, from);
    let w: u64 = if diff > 0 {
        (diff as u64) / 7
    } else {
        0
    };
    if w < (wc - 1) as u64 {
        w as usize
    } else {
        wc - 1
    }
}

/// Adds every amount of `rows` to its week.
fn spread(
    sums: &mut Vec<i64>,
    rows: &Vec<DueAmount>,
    from: CalDate,
    wc: usize,
)
    requires
        from.valid(),
        wc >= 1,
        old(sums).len() == wc,
        forall|k: int| 0 <= k < wc ==> old(sums)@[k] == 0,
        forall|i: int| 0 <= i < rows.len() ==> (#[trigger] rows@[i]).due_date.valid(),
        week_sums_fit(rows@, from, wc as int),
    ensures
        final(sums).len() == wc,
        forall|k: int| 0 <= k < wc ==> final(sums)@[k] == week_sum(rows@, from, wc as int, k),
{
    let mut i: usize = 0;
    while i < rows.len()
        invariant
            i <= rows.len(),
            from.valid(),
            wc >= 1,
            sums.len() == wc,
            forall|t: int| 0 <= t < rows.len() ==> (#[trigger] rows@[t]).due_date.valid(),
            week_sums_fit(rows@, from, wc as int),
            forall|k: int|
                0 <= k < wc ==> sums@[k] == week_sum(rows@.take(i as int), from, wc as int, k),
        decreases rows.len() - i,
    {
        let w = week_index(rows[i].due_date, from, wc);
        proof {
            lemma_week_take(rows@, from, wc as int, w as int, i as int);
            assert(i64::MIN <= week_sum(rows@.take(i + 1), from, wc as int, w as int) <= i64::MAX);
        }
        let cur = sums[w];
        sums.set(w, cur + rows[i].amount);
        proof {
            assert forall|k: int| 0 <= k < wc implies sums@[k] == week_sum(
                rows@.take(i + 1),
                from,
                wc as int,
                k,
            ) by {
                lemma_week_take(rows@, from, wc as int, k, i as int);
            }
        }
        i = i + 1;
    }
    proof {
        assert(rows@.take(rows.len() as int) =~= rows@);
    }
}

/// The first and last day of week `k`: seven days per week from `from`, the last week
/// ending at the horizon when it comes first.
fn week_dates(from: CalDate, to: CalDate, days: i64, k: usize, wc: usize) -> (r: (CalDate, CalDate))
    requires
        from.valid(),
        to.valid(),
        to.day_number() == from.day_number() + days,
        k < wc,
        wc == week_count(days as int),
        forecast_fits_dates(from, days as int),
    ensures
        r.0.valid(),
        r.0.day_number() == from.day_number() + 7 * k,
        r.1.valid(),
        r.1.day_number() == if from.day_number() + 7 * k + 6 < from.day_number() + days {
            from.day_number() + 7 * k + 6
        } else {
            from.day_number() + days
        },
{
    proof {
        lemma_week_count(days as int);
    }
    let off: i64 = 7 * (k as i64);
    let start = match date_add_days(from, off) {
        Some(s) => s,
        None => from,
    };
    let end = if off + 6 < days {
        match date_add_days(start, 6) {
            Some(e) => e,
            None => start,
        }
    } else {
        to
    };
    (start, end)
}

proof fn lemma_week_count(days: int)
    ensures
        week_count(days) >= 1,
        week_count(days) > 1 ==> 7 * week_count(days) <= days,
{
    if days >= 7 {
        assert(div_trunc(days, 7) == days / 7);
        assert((days / 7) * 7 <= days);
    }
}

/// The dates of the forecast stay in range.
pub open spec fn forecast_fits_dates(from: CalDate, days: int) -> bool {
    &&& -MAX_DURATION_DAYS <= days <= MAX_DURATION_DAYS
    &&& min_day_number() <= from.day_number() + days <= max_day_number()
    &&& from.day_number() + 7 * week_count(days) - 1 <= max_day_number()
}

impl ReportRepo {
    /// The cash-flow forecast from `from` over `days` days: one bucket per whole week (at
    /// least one), each with the receivables (inflows) and payables (outflows) due in it,
    /// its net, and the running cash balance from the opening balance.
    #[verifier::spinoff_prover]
    pub fn cash_flow_forecast(
        from: CalDate,
        days: i64,
        opening_balance: i64,
        ar: &Vec<DueAmount>,
        ap: &Vec<DueAmount>,
    ) -> (r: CashFlowForecast)
        requires
            from.valid(),
            forecast_fits(from, days as int, ar@, ap@, opening_balance as int),
        ensures
            r.opening_balance == opening_balance,
            r.buckets.len() == week_count(days as int),
            forall|k: int|
                0 <= k < r.buckets.len() ==> bucket_ok(
                    #[trigger] r.buckets@[k],
                    k,
                    from,
                    days as int,
                    ar@,
                    ap@,
                    opening_balance as int,
                ),
            r.closing_balance == opening_balance + upto_sum(
                ar@,
                from,
                week_count(days as int),
                week_count(days as int) - 1,
            ) - upto_sum(ap@, from, week_count(days as int), week_count(days as int) - 1),
    {
        let weeks = days / 7;
        let wc: usize = if weeks >= 1 {
            weeks as usize
        } else {
            1
        };
        let ghost wci = wc as int;
        let to = match date_add_days(from, days) {
            Some(t) => t,
            None => from,
        };
        let mut ins: Vec<i64> = Vec::new();
        let mut outs: Vec<i64> = Vec::new();
        let mut k: usize = 0;
        while k < wc
            invariant
                k <= wc,
                ins.len() == k,
                outs.len() == k,
                forall|t: int| 0 <= t < k ==> ins@[t] == 0 && outs@[t] == 0,
            decreases wc - k,
        {
            ins.push(0);
            outs.push(0);
            k = k + 1;
        }
        spread(&mut ins, ar, from, wc);
        spread(&mut outs, ap, from, wc);
        let mut buckets: Vec<ForecastBucket> = Vec::new();
        let mut running: i64 = opening_balance;
        let mut k: usize = 0;
        while k < wc
            invariant
                k <= wc,
                wci == wc as int,
                wc == week_count(days as int),
                from.valid(),
                to.valid(),
                to.day_number() == from.day_number() + days,
                forecast_fits(from, days as int, ar@, ap@, opening_balance as int),
                ins.len() == wc,
                outs.len() == wc,
                forall|t: int| 0 <= t < wc ==> ins@[t] == week_sum(ar@, from, wci, t),
                forall|t: int| 0 <= t < wc ==> outs@[t] == week_sum(ap@, from, wci, t),
                buckets.len() == k,
                forall|t: int|
                    0 <= t < k ==> bucket_ok(
                        #[trigger] buckets@[t],
                        t,
                        from,
                        days as int,
                        ar@,
                        ap@,
                        opening_balance as int,
                    ),
                k == 0 ==> running == opening_balance,
                k > 0 ==> running == opening_balance + upto_sum(ar@, from, wci, k - 1) - upto_sum(
                    ap@,
                    from,
                    wci,
                    k - 1,
                ),
            decreases wc - k,
        {
            proof {
                assert(i64::MIN <= week_sum(ar@, from, wci, k as int) - week_sum(ap@, from, wci, k as int)
                    <= i64::MAX);
                assert(i64::MIN <= opening_balance + upto_sum(ar@, from, wci, k as int) - upto_sum(
                    ap@,
                    from,
                    wci,
                    k as int,
                ) <= i64::MAX);
                lemma_upto_step(ar@, from, wci, k as int);
                lemma_upto_step(ap@, from, wci, k as int);
            }
            let (start, end) = week_dates(from, to, days, k, wc);
            let net = ins[k] - outs[k];
            running = running + net;
            buckets.push(
                ForecastBucket {
                    period_start: start,
                    period_end: end,
                    inflows: ins[k],
                    outflows: outs[k],
                    net,
                    running_balance: running,
                },
            );
            k = k + 1;
        }
        CashFlowForecast { opening_balance, buckets, closing_balance: running }
    }
}

/// Every open amount lands in exactly one week: the weeks' inflows add up to all
/// receivables, so the closing balance is the opening balance plus all receivables less
/// all payables.
pub proof fn lemma_forecast_closing(rows: Seq<DueAmount>, from: CalDate, wc: int)
    requires
        wc >= 1,
    ensures
        upto_sum(rows, from, wc, wc - 1) == crate::seqs::sum(due_values(rows)),
    decreases rows.len(),
{
    if rows.len() > 0 {
        lemma_forecast_closing(rows.drop_last(), from, wc);
        assert(due_values(rows).drop_last() =~= due_values(rows.drop_last()));
    }
}

} // verus!
