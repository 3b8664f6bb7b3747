//! Amortization and allocation schedules: straight-line revenue recognition, prepaid
//! expense amortization and landed-cost allocation.
use vstd::prelude::*;

use crate::dates::{days_in_month, min_int, month_length, CalDate, MAX_YEAR};
use crate::error::{Conflict, DbError};
use crate::recurring::{div_trunc, rem_trunc};
use crate::seqs::{lemma_filter_take_succ, lemma_sum_take_succ, lemma_take_full, prefix_sums_fit, sum};
use crate::text::str_eq;

verus! {

// ── Revenue recognition ─────────────────────────────────────────────────────────

/// Revenue-recognition methods.
pub open spec fn is_rev_rec_method(m: Seq<char>) -> bool {
    m == "straight_line"@ || m == "milestone"@ || m == "usage_based"@ || m == "manual"@
}

/// Most months a straight-line schedule spans.
pub const MAX_SCHEDULE_MONTHS: usize = 601;

/// The first day of the month after `c`'s month; `c` itself when that month is past the
/// supported range.
pub open spec fn next_month_start(c: CalDate) -> CalDate {
    if c.month == 12 {
        if c.year + 1 <= MAX_YEAR {
            CalDate { year: (c.year + 1) as i32, month: 1, day: 1 }
        } else {
            c
        }
    } else {
        CalDate { year: c.year, month: (c.month + 1) as u8, day: 1 }
    }
}

/// Month starts from `cur` while they are on or before `last`, at most `budget` of them.
pub open spec fn month_starts(cur: CalDate, last: CalDate, budget: nat) -> Seq<CalDate>
    decreases budget,
{
    if budget == 0 || !cur.before_eq(last) {
        Seq::empty()
    } else {
        seq![cur] + month_starts(next_month_start(cur), last, (budget - 1) as nat)
    }
}

/// The first day of `d`'s month.
pub open spec fn month_start_of(d: CalDate) -> CalDate {
    CalDate { year: d.year, month: d.month, day: 1 }
}

/// The months a straight-line schedule from `start` to `end` covers.
pub open spec fn straight_line_months(start: CalDate, end: CalDate) -> Seq<CalDate> {
    month_starts(month_start_of(start), month_start_of(end), MAX_SCHEDULE_MONTHS as nat)
}

/// Amount of the `i`-th of `n` straight-line entries for `total`: the truncated share,
/// with the remainder added to the first entry.
pub open spec fn straight_line_amount(total: int, n: int, i: int) -> int {
    if i == 0 {
        div_trunc(total, n) + rem_trunc(total, n)
    } else {
        div_trunc(total, n)
    }
}

/// The straight-line schedule: one entry per covered month with a positive amount; when
/// no month is covered, the whole total on the start date.
pub open spec fn straight_line_schedule(start: CalDate, end: CalDate, total: int) -> Seq<
    (CalDate, i64),
> {
    let months = straight_line_months(start, end);
    let n = months.len() as int;
    if n == 0 {
        seq![(start, total as i64)]
    } else {
        Seq::new(n as nat, |i: int| (months[i], straight_line_amount(total, n, i) as i64)).filter(
            |e: (CalDate, i64)| e.1 > 0,
        )
    }
}

/// Amounts of schedule entries.
pub open spec fn entry_amounts(s: Seq<(CalDate, i64)>) -> Seq<int> {
    s.map_values(|e: (CalDate, i64)| e.1 as int)
}

proof fn lemma_month_starts_len(cur: CalDate, last: CalDate, budget: nat)
    ensures
        month_starts(cur, last, budget).len() <= budget,
    decreases budget,
{
    if budget > 0 && cur.before_eq(last) {
        lemma_month_starts_len(next_month_start(cur), last, (budget - 1) as nat);
    }
}

proof fn lemma_month_starts_valid(cur: CalDate, last: CalDate, budget: nat)
    requires
        cur.valid(),
        cur.day == 1,
    ensures
        forall|i: int|
            0 <= i < month_starts(cur, last, budget).len() ==> (#[trigger] month_starts(
                cur,
                last,
                budget,
            )[i]).valid() && month_starts(cur, last, budget)[i].day == 1,
    decreases budget,
{
    if budget > 0 && cur.before_eq(last) {
        let rest = month_starts(next_month_start(cur), last, (budget - 1) as nat);
        lemma_month_starts_valid(next_month_start(cur), last, (budget - 1) as nat);
        assert(month_starts(cur, last, budget) =~= seq![cur] + rest);
    }
}

/// Facts about truncating division used by the schedule amounts.
proof fn lemma_div_trunc_parts(total: int, n: int)
    requires
        n >= 1,
    ensures
        div_trunc(total, n) * n + rem_trunc(total, n) == total,
        total >= 0 ==> 0 <= div_trunc(total, n) && 0 <= rem_trunc(total, n) < n,
        total >= 0 ==> div_trunc(total, n) + rem_trunc(total, n) <= total,
        total < 0 ==> div_trunc(total, n) <= 0 && -n < rem_trunc(total, n) <= 0,
        total < 0 ==> total <= div_trunc(total, n) + rem_trunc(total, n),
{
    assert(div_trunc(total, n) * n + rem_trunc(total, n) == total);
    if total >= 0 {
        assert(0 <= total / n) by (nonlinear_arith)
            requires
                total >= 0,
                n >= 1,
        ;
        assert(total / n * n <= total && total - total / n * n < n) by (nonlinear_arith)
            requires
                total >= 0,
                n >= 1,
        ;
        assert(total / n <= total / n * n) by (nonlinear_arith)
            requires
                total >= 0,
                n >= 1,
        ;
    } else {
        let m = -total;
        assert(0 <= m / n && m / n * n <= m && m - m / n * n < n && m / n <= m / n * n) by (
        nonlinear_arith)
            requires
                m > 0,
                n >= 1,
        ;
        assert(div_trunc(total, n) == -(m / n));
        assert(rem_trunc(total, n) == -(m - (m / n) * n)) by (nonlinear_arith)
            requires
                rem_trunc(total, n) == total - div_trunc(total, n) * n,
                div_trunc(total, n) == -(m / n),
                total == -m,
        ;
    }
}

/// Sum of the unfiltered straight-line amounts.
proof fn lemma_straight_line_sum(total: int, n: int, k: int)
    requires
        n >= 1,
        0 <= k <= n,
    ensures
        sum(Seq::new(k as nat, |i: int| straight_line_amount(total, n, i))) == if k == 0 {
            0
        } else {
            div_trunc(total, n) * k + rem_trunc(total, n)
        },
    decreases k,
{
    let s = Seq::new(k as nat, |i: int| straight_line_amount(total, n, i));
    if k > 0 {
        lemma_straight_line_sum(total, n, k - 1);
        assert(s.drop_last() =~= Seq::new((k - 1) as nat, |i: int| straight_line_amount(total, n, i)));
        assert(div_trunc(total, n) * (k - 1) + div_trunc(total, n) == div_trunc(total, n) * k)
            by (nonlinear_arith);
    }
}

/// Filtering out non-positive values does not change the sum of non-negative values.
proof fn lemma_sum_filter_positive(s: Seq<(CalDate, i64)>)
    requires
        forall|i: int| 0 <= i < s.len() ==> s[i].1 >= 0,
    ensures
        sum(entry_amounts(s.filter(|e: (CalDate, i64)| e.1 > 0))) == sum(entry_amounts(s)),
    decreases s.len(),
{
    reveal(Seq::filter);
    let p = |e: (CalDate, i64)| e.1 > 0;
    if s.len() > 0 {
        lemma_sum_filter_positive(s.drop_last());
        let f = s.drop_last().filter(p);
        assert(entry_amounts(s).drop_last() =~= entry_amounts(s.drop_last()));
        if p(s.last()) {
            assert(entry_amounts(f.push(s.last())).drop_last() =~= entry_amounts(f));
        }
    }
}

/// Revenue-recognition schedules.
pub struct RevRecRepo;

impl RevRecRepo {
    /// Accepts the recognition methods a schedule may be created with.
    pub fn validate_method(method: &str) -> (r: Result<(), DbError>)
        ensures
            r is Ok <==> is_rev_rec_method(method@),
            r matches Err(e) ==> e matches DbError::Conflict(Conflict::InvalidRevRecMethod(s))
                && s@ == method@,
    {
        if str_eq(method, "straight_line") || str_eq(method, "milestone") || str_eq(
            method,
            "usage_based",
        ) || str_eq(method, "manual") {
            Ok(())
        } else {
            Err(DbError::Conflict(Conflict::InvalidRevRecMethod(String::from_str(method))))
        }
    }

    /// The first days of the months from `start`'s month through `end`'s month (at most
    /// 601 of them).
    pub fn schedule_months(start: CalDate, end: CalDate) -> (r: Vec<CalDate>)
        requires
            start.valid(),
            end.valid(),
        ensures
            r@ == straight_line_months(start, end),
            r.len() <= MAX_SCHEDULE_MONTHS,
            forall|i: int| 0 <= i < r.len() ==> (#[trigger] r[i]).valid() && r[i].day == 1,
    {
        let first = start.first_of_month();
        let last = end.first_of_month();
        let ghost all = month_starts(first, last, MAX_SCHEDULE_MONTHS as nat);
        proof {
            lemma_month_starts_valid(first, last, MAX_SCHEDULE_MONTHS as nat);
        }
        let mut periods: Vec<CalDate> = Vec::new();
        let mut current = first;
        while current.le(&last) && periods.len() < MAX_SCHEDULE_MONTHS
            invariant
                current.valid(),
                current.day == 1,
                periods.len() <= MAX_SCHEDULE_MONTHS,
                periods@ + month_starts(
                    current,
                    last,
                    (MAX_SCHEDULE_MONTHS - periods.len()) as nat,
                ) == all,
                all == month_starts(first, last, MAX_SCHEDULE_MONTHS as nat),
            decreases MAX_SCHEDULE_MONTHS - periods.len(),
        {
            let ghost budget = (MAX_SCHEDULE_MONTHS - periods.len()) as nat;
            proof {
                assert(month_starts(current, last, budget) =~= seq![current] + month_starts(
                    next_month_start(current),
                    last,
                    (budget - 1) as nat,
                ));
            }
            periods.push(current);
            proof {
                assert(periods@ + month_starts(next_month_start(current), last, (budget - 1) as nat)
                    =~= all);
            }
            let next = if current.month == 12 {
                if current.year < MAX_YEAR {
                    CalDate { year: current.year + 1, month: 1, day: 1 }
                } else {
                    current
                }
            } else {
                CalDate { year: current.year, month: current.month + 1, day: 1 }
            };
            current = next;
        }
        proof {
            lemma_month_starts_len(first, last, MAX_SCHEDULE_MONTHS as nat);
            assert(periods@ =~= all);
        }
        periods
    }

    /// Straight-line recognition entries for `total` between `start` and `end`: the total
    /// split evenly over the covered months with the remainder on the first month, keeping
    /// only positive amounts; the whole total on `start` when no month is covered.
    pub fn generate_straight_line_periods(start: CalDate, end: CalDate, total: i64) -> (r: Vec<
        (CalDate, i64),
    >)
        requires
            start.valid(),
            end.valid(),
        ensures
            r@ == straight_line_schedule(start, end, total as int),
            total >= 0 ==> sum(entry_amounts(r@)) == total,
            forall|i: int| 0 <= i < r.len() ==> (r[i].1 > 0 || straight_line_months(start, end).len()
                == 0),
    {
        let months = Self::schedule_months(start, end);
        let n = months.len();
        if n == 0 {
            let r = vec![(start, total)];
            proof {
                assert(entry_amounts(r@).drop_last() =~= Seq::<int>::empty());
                assert(sum(Seq::<int>::empty()) == 0);
            }
            return r;
        }
        let ni = n as i64;
        let base = total / ni;
        proof {
            assert(base == div_trunc(total as int, n as int));
            lemma_div_trunc_parts(total as int, n as int);
        }
        let remainder = total - base * ni;
        let ghost all = Seq::new(
            n as nat,
            |i: int| (months@[i], straight_line_amount(total as int, n as int, i) as i64),
        );
        let ghost pos = |e: (CalDate, i64)| e.1 > 0;
        let mut out: Vec<(CalDate, i64)> = Vec::new();
        let mut i: usize = 0;
        while i < n
            invariant
                n == months.len(),
                n >= 1,
                i <= n,
                ni == n,
                base == div_trunc(total as int, n as int),
                remainder == rem_trunc(total as int, n as int),
                total >= 0 ==> 0 <= base + remainder <= total,
                total < 0 ==> total <= base + remainder <= 0,
                all == Seq::new(
                    n as nat,
                    |i: int| (months@[i], straight_line_amount(total as int, n as int, i) as i64),
                ),
                pos == (|e: (CalDate, i64)| e.1 > 0),
                out@ == all.take(i as int).filter(pos),
            decreases n - i,
        {
            let amt = if i == 0 {
                base + remainder
            } else {
                base
            };
            proof {
                lemma_filter_take_succ(all, pos, i as int);
                assert(all[i as int] == (months@[i as int], amt));
            }
            if amt > 0 {
                out.push((months[i], amt));
            }
            i = i + 1;
        }
        proof {
            lemma_take_full(all);
            assert(all =~= Seq::new(
                n as nat,
                |i: int| (months@[i], straight_line_amount(total as int, n as int, i) as i64),
            ));
            assert(out@ =~= straight_line_schedule(start, end, total as int));
            if total >= 0 {
                lemma_div_trunc_parts(total as int, n as int);
                assert forall|j: int| 0 <= j < all.len() implies all[j].1 >= 0 by {}
                lemma_sum_filter_positive(all);
                lemma_straight_line_sum(total as int, n as int, n as int);
                assert(entry_amounts(all) =~= Seq::new(
                    n as nat,
                    |i: int| straight_line_amount(total as int, n as int, i),
                ));
            }
            reveal(Seq::filter);
            assert forall|j: int| 0 <= j < out.len() implies out[j].1 > 0 by {
                broadcast use vstd::seq_lib::group_filter_ensures;
            }
        }
        out
    }
}

// ── Prepaid expenses ────────────────────────────────────────────────────────────

/// The period after `c` in a prepaid schedule: the same day of the next month clamped to
/// its length, or none when that month is past the supported range.
pub open spec fn prepaid_next(c: CalDate) -> Option<CalDate> {
    let (ny, nm) = if c.month >= 12 {
        (c.year + 1, 1int)
    } else {
        (c.year as int, c.month + 1)
    };
    if ny <= MAX_YEAR {
        Some(
            CalDate {
                year: ny as i32,
                month: nm as u8,
                day: min_int(c.day as int, month_length(ny, nm)) as u8,
            },
        )
    } else {
        None
    }
}

/// Monthly periods from `cur` while on or before `end`.
pub open spec fn prepaid_periods(cur: CalDate, end: CalDate) -> Seq<CalDate>
    decreases end.year * 256 + end.month - cur.year * 256 - cur.month + 256,
{
    if !cur.before_eq(end) {
        Seq::empty()
    } else {
        match prepaid_next(cur) {
            Some(n) => {
                proof {
                    assert(n.year * 256 + n.month >= cur.year * 256 + cur.month + 1);
                }
                seq![cur] + prepaid_periods(n, end)
            },
            None => seq![cur],
        }
    }
}

/// Amount of the `i`-th of `n` prepaid entries: the truncated share, the last entry
/// taking the remainder.
pub open spec fn prepaid_amount(total: int, n: int, i: int) -> int {
    if i == n - 1 {
        total / n + (total - (total / n) * n)
    } else {
        total / n
    }
}

/// A validated prepaid-expense schedule with its entries.
pub struct PrepaidPlan {
    pub organization_id: u128,
    pub asset_account_id: u128,
    pub expense_account_id: u128,
    pub entries: Vec<(CalDate, i64)>,
}

/// Prepaid expense schedules.
pub struct PrepaidExpenseRepo;

impl PrepaidExpenseRepo {
    /// Monthly period dates from `start` while on or before `end`, each the same day of the
    /// next month as the previous one (clamped to the month's length).
    pub fn monthly_periods(start: CalDate, end: CalDate) -> (r: Vec<CalDate>)
        requires
            start.valid(),
            end.valid(),
        ensures
            r@ == prepaid_periods(start, end),
    {
        let mut dates: Vec<CalDate> = Vec::new();
        let mut cur = start;
        while cur.le(&end)
            invariant
                cur.valid(),
                end.valid(),
                dates@ + prepaid_periods(cur, end) == prepaid_periods(start, end),
            decreases end.year * 256 + end.month - cur.year * 256 - cur.month + 256,
        {
            dates.push(cur);
            let (ny, nm): (i32, u8) = if cur.month == 12 {
                if cur.year >= MAX_YEAR {
                    assert(prepaid_next(cur) is None);
                    assert(prepaid_periods(cur, end) =~= seq![cur]);
                    assert(dates@ =~= prepaid_periods(start, end));
                    return dates;
                }
                (cur.year + 1, 1)
            } else {
                (cur.year, cur.month + 1)
            };
            let dim = days_in_month(ny, nm);
            let day = if cur.day < dim {
                cur.day
            } else {
                dim
            };
            let next = CalDate { year: ny, month: nm, day };
            proof {
                assert(prepaid_next(cur) == Some(next));
                assert(prepaid_periods(cur, end) =~= seq![cur] + prepaid_periods(next, end));
                assert(dates@ + prepaid_periods(next, end) =~= prepaid_periods(start, end));
            }
            cur = next;
        }
        proof {
            assert(dates@ =~= dates@ + prepaid_periods(cur, end));
        }
        dates
    }
}

} // verus!

verus! {

/// The prepaid entries for `total` over `periods`: an even truncated share per period,
/// the last taking the remainder.
pub open spec fn prepaid_entries(periods: Seq<CalDate>, total: int) -> Seq<(CalDate, i64)> {
    Seq::new(
        periods.len(),
        |i: int| (periods[i], prepaid_amount(total, periods.len() as int, i) as i64),
    )
}

proof fn lemma_prepaid_sum(total: int, n: int, k: int)
    requires
        n >= 1,
        0 <= k <= n,
    ensures
        k < n ==> sum(Seq::new(k as nat, |i: int| prepaid_amount(total, n, i))) == (total / n)
            * k,
        k == n ==> sum(Seq::new(k as nat, |i: int| prepaid_amount(total, n, i))) == total,
    decreases k,
{
    let s = Seq::new(k as nat, |i: int| prepaid_amount(total, n, i));
    if k > 0 {
        lemma_prepaid_sum(total, n, k - 1);
        assert(s.drop_last() =~= Seq::new((k - 1) as nat, |i: int| prepaid_amount(total, n, i)));
        assert(sum(s) == sum(s.drop_last()) + s.last());
        let q = total / n;
        assert(q * (k - 1) + q == q * k) by (nonlinear_arith);
        if k == n {
            assert(s.last() == q + (total - q * n));
            assert(sum(s) == q * (k - 1) + q + (total - q * n));
        } else {
            assert(s.last() == q);
        }
    }
}

proof fn lemma_prepaid_periods_len(cur: CalDate, end: CalDate)
    requires
        cur.valid(),
        end.valid(),
    ensures
        prepaid_periods(cur, end).len() <= 240_000,
        prepaid_periods(cur, end).len() <= (end.month_index() - cur.month_index() + 1) as int
            || prepaid_periods(cur, end).len() == 0,
    decreases end.year * 256 + end.month - cur.year * 256 - cur.month + 256,
{
    if cur.before_eq(end) {
        match prepaid_next(cur) {
            Some(n) => {
                assert(n.valid());
                assert(n.month_index() == cur.month_index() + 1);
                lemma_prepaid_periods_len(n, end);
            },
            None => {},
        }
    }
}

impl PrepaidExpenseRepo {
    /// Validates a new prepaid schedule (in the order the checks are made) and builds its
    /// monthly amortization entries.
    pub fn plan_create(
        org_id: &str,
        asset_account_id: &str,
        expense_account_id: &str,
        start: CalDate,
        end: CalDate,
        total_amount: i64,
    ) -> (r: Result<PrepaidPlan, DbError>)
        requires
            start.valid(),
            end.valid(),
        ensures
            r matches Ok(p) ==> {
                &&& crate::ids::uuid_parse(org_id@) == Some(p.organization_id)
                &&& crate::ids::uuid_parse(asset_account_id@) == Some(p.asset_account_id)
                &&& crate::ids::uuid_parse(expense_account_id@) == Some(p.expense_account_id)
                &&& start.before(end)
                &&& total_amount > 0
                &&& p.entries@ == prepaid_entries(prepaid_periods(start, end), total_amount as int)
                &&& sum(entry_amounts(p.entries@)) == total_amount
            },
            (crate::ids::uuid_parse(org_id@) is Some && crate::ids::uuid_parse(asset_account_id@)
                is Some && crate::ids::uuid_parse(expense_account_id@) is Some) ==> (r is Ok <==> (
            start.before(end) && total_amount > 0)),
            (crate::ids::uuid_parse(org_id@) is Some && crate::ids::uuid_parse(asset_account_id@)
                is Some && crate::ids::uuid_parse(expense_account_id@) is Some && !start.before(end))
                ==> r == Err::<PrepaidPlan, DbError>(DbError::Conflict(Conflict::EndNotAfterStart)),
            (crate::ids::uuid_parse(org_id@) is Some && crate::ids::uuid_parse(asset_account_id@)
                is Some && crate::ids::uuid_parse(expense_account_id@) is Some && start.before(end)
                && total_amount <= 0) ==> r == Err::<PrepaidPlan, DbError>(
                DbError::Conflict(Conflict::NonPositiveTotal),
            ),
    {
        let org = crate::ids::parse_uuid(org_id)?;
        let asset = crate::ids::parse_uuid(asset_account_id)?;
        let expense = crate::ids::parse_uuid(expense_account_id)?;
        if end.le(&start) {
            return Err(DbError::Conflict(Conflict::EndNotAfterStart));
        }
        if total_amount <= 0 {
            return Err(DbError::Conflict(Conflict::NonPositiveTotal));
        }
        let periods = Self::monthly_periods(start, end);
        if periods.len() == 0 {
            proof {
                assert(prepaid_periods(start, end).len() > 0);
            }
            return Err(DbError::Conflict(Conflict::NoPeriods));
        }
        let n = periods.len();
        proof {
            lemma_prepaid_periods_len(start, end);
        }
        let ni = n as i64;
        let per = total_amount / ni;
        proof {
            assert(per * n <= total_amount && total_amount - per * n < n && per >= 0 && per + (
            total_amount - per * n) <= total_amount) by (nonlinear_arith)
                requires
                    per == (total_amount as int) / (n as int),
                    total_amount > 0,
                    n >= 1,
            ;
        }
        let remainder = total_amount - per * ni;
        let ghost all = prepaid_entries(periods@, total_amount as int);
        let mut entries: Vec<(CalDate, i64)> = Vec::new();
        let mut i: usize = 0;
        while i < n
            invariant
                n == periods.len(),
                n >= 1,
                i <= n,
                ni == n,
                per == (total_amount as int) / (n as int),
                remainder == total_amount - per * n,
                0 <= per,
                0 <= remainder < n,
                per + remainder <= total_amount,
                total_amount > 0,
                all == prepaid_entries(periods@, total_amount as int),
                entries@ == all.take(i as int),
            decreases n - i,
        {
            let amount = if i == n - 1 {
                per + remainder
            } else {
                per
            };
            entries.push((periods[i], amount));
            proof {
                assert(entries@ =~= all.take(i + 1));
            }
            i = i + 1;
        }
        proof {
            lemma_take_full(all);
            lemma_prepaid_sum(total_amount as int, n as int, n as int);
            assert(entry_amounts(entries@) =~= Seq::new(
                n as nat,
                |i: int| prepaid_amount(total_amount as int, n as int, i),
            ));
            assert(per * n + remainder == total_amount);
        }
        Ok(
            PrepaidPlan {
                organization_id: org,
                asset_account_id: asset,
                expense_account_id: expense,
                entries,
            },
        )
    }
}

// ── Landed costs ───────────────────────────────────────────────────────────────

/// A received line a landed cost is spread over.
pub struct GrnLineCost {
    pub quantity_received: i64,
    pub unit_cost: i64,
    /// The line is linked to an inventory item.
    pub inventoried: bool,
}

/// One line's share of a landed cost, and the increase of its item's unit cost when the
/// item is inventoried and the increase is positive.
pub struct Allocation {
    pub allocated_amount: i64,
    pub extra_per_unit: Option<i64>,
}

/// An allocation carries the allocated amount `x` and the extra unit cost it gives line `l`.
pub open spec fn alloc_matches(a: Allocation, l: GrnLineCost, x: int) -> bool {
    a.allocated_amount == x && a.extra_per_unit == lc_extra(l, x)
}

/// Truncating division by any non-zero divisor.
pub open spec fn div_trunc_any(a: int, b: int) -> int {
    if b > 0 {
        div_trunc(a, b)
    } else {
        -div_trunc(a, -b)
    }
}

/// Allocation weight of a line: value (quantity × unit cost) or quantity.
pub open spec fn lc_weight(l: GrnLineCost, by_value: bool) -> int {
    if by_value {
        l.quantity_received * l.unit_cost
    } else {
        l.quantity_received as int
    }
}

/// Weights of all lines.
pub open spec fn lc_weights(lines: Seq<GrnLineCost>, by_value: bool) -> Seq<int> {
    lines.map_values(|l: GrnLineCost| lc_weight(l, by_value))
}

/// A line's proportional share before the last line takes the rest: the truncated
/// quotient computed in 128 bits and narrowed to 64 bits.
pub open spec fn lc_share(amount: int, w: int, total: int) -> int {
    (div_trunc_any(amount * w, total) as i64) as int
}

/// Proportional shares of every line.
pub open spec fn lc_shares(amount: int, ws: Seq<int>, total: int) -> Seq<int> {
    ws.map_values(|w: int| lc_share(amount, w, total))
}

/// The allocated amounts: the proportional share for every line but the last, which gets
/// what remains of the amount.
pub open spec fn lc_allocations(amount: int, ws: Seq<int>, total: int) -> Seq<int> {
    let shares = lc_shares(amount, ws, total);
    let n = ws.len() as int;
    shares.take(n - 1).push(amount - sum(shares.take(n - 1)))
}

/// Unit-cost increase applied to an inventoried line's item: the allocation per received
/// unit (truncated), applied only when positive.
pub open spec fn lc_extra(l: GrnLineCost, alloc: int) -> Option<i64> {
    let extra = if l.quantity_received > 0 {
        div_trunc_any(alloc, l.quantity_received as int)
    } else {
        0
    };
    if l.inventoried && extra > 0 {
        Some(extra as i64)
    } else {
        None
    }
}

/// The arithmetic of allocating `amount` over `lines` never overflows.
pub open spec fn lc_fits(amount: int, lines: Seq<GrnLineCost>, by_value: bool) -> bool {
    let ws = lc_weights(lines, by_value);
    &&& forall|i: int|
        0 <= i < lines.len() ==> i64::MIN <= #[trigger] lc_weight(lines[i], by_value) <= i64::MAX
    &&& crate::seqs::prefix_sums_fit(ws)
    &&& forall|i: int|
        0 <= i < lines.len() ==> i64::MIN <= amount - #[trigger] sum(
            lc_shares(amount, ws, sum(ws)).take(i),
        ) <= i64::MAX
}

/// Under any method but "value" a line weighs its received quantity alone; under
/// "value" it weighs its quantity times its unit cost.
pub proof fn lemma_allocation_weights(method: Seq<char>, lines: Seq<GrnLineCost>)
    ensures
        method != "value"@ ==> lc_weights(lines, method == "value"@) == lc_weights(lines, false),
        method == "value"@ ==> lc_weights(lines, method == "value"@) == lc_weights(lines, true),
        forall|i: int|
            0 <= i < lines.len() ==> #[trigger] lc_weights(lines, false)[i]
                == lines[i].quantity_received,
        forall|i: int|
            0 <= i < lines.len() ==> #[trigger] lc_weights(lines, true)[i]
                == lines[i].quantity_received * lines[i].unit_cost,
{
}

/// Under any method but "value", unit costs play no part: two receipts whose lines have
/// the same received quantities get the same allocated amounts.
pub proof fn lemma_quantity_allocation_ignores_unit_cost(
    amount: int,
    method: Seq<char>,
    lines1: Seq<GrnLineCost>,
    lines2: Seq<GrnLineCost>,
)
    requires
        method != "value"@,
        lines1.len() == lines2.len(),
        forall|i: int|
            0 <= i < lines1.len() ==> #[trigger] lines1[i].quantity_received
                == lines2[i].quantity_received,
    ensures
        ({
            let w1 = lc_weights(lines1, method == "value"@);
            let w2 = lc_weights(lines2, method == "value"@);
            &&& sum(w1) == sum(w2)
            &&& lc_allocations(amount, w1, sum(w1)) == lc_allocations(amount, w2, sum(w2))
        }),
{
    let w1 = lc_weights(lines1, method == "value"@);
    let w2 = lc_weights(lines2, method == "value"@);
    assert(w1 =~= w2);
}

/// An inventoried line's item cost rises by its allocation per received unit (rounded
/// down) when that is at least one; a line not linked to an item, or with nothing
/// received, changes no item cost.
pub proof fn lemma_extra_per_unit(l: GrnLineCost, alloc: int)
    ensures
        l.inventoried && l.quantity_received > 0 && alloc >= l.quantity_received
            && alloc / l.quantity_received as int <= i64::MAX ==> lc_extra(l, alloc) == Some(
            (alloc / l.quantity_received as int) as i64,
        ),
        (!l.inventoried || l.quantity_received <= 0 || 0 <= alloc < l.quantity_received) ==> lc_extra(
            l,
            alloc,
        ) is None,
{
    if l.quantity_received > 0 && alloc >= 0 {
        assert(div_trunc_any(alloc, l.quantity_received as int) == alloc / l.quantity_received as int);
        if alloc < l.quantity_received {
            assert(alloc / l.quantity_received as int == 0) by (nonlinear_arith)
                requires
                    0 <= alloc < l.quantity_received,
            ;
        } else {
            assert(alloc / l.quantity_received as int >= 1) by (nonlinear_arith)
                requires
                    alloc >= l.quantity_received,
                    l.quantity_received > 0,
            ;
        }
    }
}

/// Landed costs on goods receipts.
pub struct LandedCostRepo;

impl LandedCostRepo {
    /// A landed cost can only be added to a posted receipt that has lines.
    pub fn check_receipt(grn_status: &str, line_count: usize) -> (r: Result<(), DbError>)
        ensures
            grn_status@ != "posted"@ ==> r == Err::<(), DbError>(
                DbError::Conflict(Conflict::ReceiptNotPosted),
            ),
            grn_status@ == "posted"@ && line_count == 0 ==> r == Err::<(), DbError>(
                DbError::Conflict(Conflict::NoLinesToAllocate),
            ),
            grn_status@ == "posted"@ && line_count > 0 ==> r is Ok,
    {
        if !str_eq(grn_status, "posted") {
            return Err(DbError::Conflict(Conflict::ReceiptNotPosted));
        }
        if line_count == 0 {
            return Err(DbError::Conflict(Conflict::NoLinesToAllocate));
        }
        Ok(())
    }

    /// Spreads `amount` over the lines in proportion to their value (method "value") or
    /// quantity (any other method); the last line gets the remainder so that the
    /// allocations add up to the amount exactly.
    pub fn allocate(amount: i64, allocation_method: &str, lines: &Vec<GrnLineCost>) -> (r: Result<
        Vec<Allocation>,
        DbError,
    >)
        requires
            lines.len() > 0,
            lc_fits(amount as int, lines@, allocation_method@ == "value"@),
        ensures
            ({
                let ws = lc_weights(lines@, allocation_method@ == "value"@);
                &&& sum(ws) == 0 ==> r == Err::<Vec<Allocation>, DbError>(
                    DbError::Conflict(Conflict::ZeroTotalWeight),
                )
                &&& allocation_method@ != "value"@ ==> forall|i: int|
                    0 <= i < lines.len() ==> #[trigger] ws[i] == lines[i].quantity_received
                &&& allocation_method@ == "value"@ ==> forall|i: int|
                    0 <= i < lines.len() ==> #[trigger] ws[i] == lines[i].quantity_received
                        * lines[i].unit_cost
                &&& sum(ws) != 0 ==> (r matches Ok(a) && a.len() == lines.len() && (forall|i: int|
                    0 <= i < a.len() ==> #[trigger] a[i].allocated_amount == lc_allocations(
                        amount as int,
                        ws,
                        sum(ws),
                    )[i] && a[i].extra_per_unit == lc_extra(lines[i], a[i].allocated_amount as int))
                    && sum(a@.map_values(|x: Allocation| x.allocated_amount as int)) == amount)
            }),
    {
        proof {
            reveal_strlit("value");
        }
        let by_value = str_eq(allocation_method, "value");
        let ghost ws = lc_weights(lines@, by_value);
        let n = lines.len();
        let mut total: i64 = 0;
        let mut i: usize = 0;
        while i < n
            invariant
                n == lines.len(),
                i <= n,
                ws == lc_weights(lines@, by_value),
                lc_fits(amount as int, lines@, by_value),
                total == sum(ws.take(i as int)),
            decreases n - i,
        {
            proof {
                lemma_sum_take_succ(ws, i as int);
                assert(i64::MIN <= sum(ws.take(i + 1)) <= i64::MAX);
                assert(i64::MIN <= lc_weight(lines@[i as int], by_value) <= i64::MAX);
            }
            let w = if by_value {
                lines[i].quantity_received * lines[i].unit_cost
            } else {
                lines[i].quantity_received
            };
            total = total + w;
            i = i + 1;
        }
        proof {
            lemma_take_full(ws);
        }
        if total == 0 {
            return Err(DbError::Conflict(Conflict::ZeroTotalWeight));
        }
        let ghost shares = lc_shares(amount as int, ws, total as int);
        let ghost allocs = lc_allocations(amount as int, ws, total as int);
        let mut out: Vec<Allocation> = Vec::new();
        let mut remaining: i64 = amount;
        let mut i: usize = 0;
        while i < n
            invariant
                n == lines.len(),
                n >= 1,
                i <= n,
                total != 0,
                total == sum(ws),
                ws == lc_weights(lines@, by_value),
                lc_fits(amount as int, lines@, by_value),
                shares == lc_shares(amount as int, ws, total as int),
                allocs == lc_allocations(amount as int, ws, total as int),
                out.len() == i,
                i < n ==> remaining == amount - sum(shares.take(i as int)),
                forall|j: int| 0 <= j < i ==> alloc_matches(#[trigger] out@[j], lines@[j], allocs[j]),
                i == n ==> remaining == 0,
            decreases n - i,
        {
            let l = &lines[i];
            let w: i64 = if by_value {
                l.quantity_received * l.unit_cost
            } else {
                l.quantity_received
            };
            let alloc: i64 = if i == n - 1 {
                remaining
            } else {
                proof {
                    assert(-0x4000_0000_0000_0000_0000_0000_0000_0000 <= amount * w
                        <= 0x4000_0000_0000_0000_0000_0000_0000_0000) by (nonlinear_arith)
                        requires
                            i64::MIN <= amount <= i64::MAX,
                            i64::MIN <= w <= i64::MAX,
                    ;
                }
                let num: i128 = amount as i128 * w as i128;
                let q: i128 = if total > 0 {
                    num / (total as i128)
                } else {
                    -(num / (-(total as i128)))
                };
                proof {
                    assert(q == div_trunc_any(amount * w, total as int));
                }
                #[verifier::truncate]
                (q as i64)
            };
            proof {
                if i < n - 1 {
                    lemma_sum_take_succ(shares, i as int);
                    assert(shares[i as int] == alloc);
                    assert(allocs[i as int] == alloc);
                } else {
                    assert(allocs[i as int] == alloc);
                }
            }
            remaining = remaining - alloc;
            let extra: i64 = if l.quantity_received > 0 {
                alloc / l.quantity_received
            } else {
                0
            };
            let extra_per_unit = if l.inventoried && extra > 0 {
                Some(extra)
            } else {
                None
            };
            proof {
                if l.quantity_received > 0 {
                    assert(extra == div_trunc_any(alloc as int, l.quantity_received as int));
                }
                assert(extra_per_unit == lc_extra(lines@[i as int], allocs[i as int]));
            }
            let ghost before = out@;
            out.push(Allocation { allocated_amount: alloc, extra_per_unit });
            proof {
                assert(alloc_matches(out@[i as int], lines@[i as int], allocs[i as int]));
                assert forall|j: int| 0 <= j < i implies alloc_matches(
                    #[trigger] out@[j],
                    lines@[j],
                    allocs[j],
                ) by {
                    assert(out@[j] == before[j]);
                }
            }
            i = i + 1;
        }
        proof {
            let av = out@.map_values(|x: Allocation| x.allocated_amount as int);
            assert(av =~= allocs);
            let st = shares.take(n - 1);
            assert(allocs.drop_last() =~= st);
            assert(sum(allocs) == amount);
        }
        Ok(out)
    }
}

} // verus!

verus! {

// ── Recognition ────────────────────────────────────────────────────────────────

/// What `time` parses a period `YYYY-MM` as: the first day of that month, read from the
/// trimmed text with `-01` appended.
pub open spec fn period_text(period: Seq<char>) -> Seq<char> {
    crate::text::trimmed(period) + "-01"@
}

/// State of a recognition schedule.
#[derive(Debug, Clone, Copy, PartialEq, Eq, Structural)]
pub enum RevRecStatus {
    Active,
    Completed,
    Other,
}

/// A schedule's amounts and status.
#[derive(Debug, Clone, Copy, PartialEq, Eq, Structural)]
pub struct RevRecSchedule {
    pub id: u128,
    pub total_amount: i64,
    pub recognized_amount: i64,
    pub status: RevRecStatus,
}

/// An unposted entry of a schedule for the period being recognized.
#[derive(Debug, Clone, Copy, PartialEq, Eq, Structural)]
pub struct RevRecEntryDue {
    pub entry_id: u128,
    pub schedule_id: u128,
    pub amount: i64,
}

/// Posting entry `e` on schedule `s`: the recognized amount grows; an active schedule
/// that reaches its total is completed.
pub open spec fn recognize_one(s: RevRecSchedule, e: RevRecEntryDue) -> RevRecSchedule {
    if s.id == e.schedule_id {
        let rec = (s.recognized_amount + e.amount) as i64;
        RevRecSchedule {
            recognized_amount: rec,
            status: if rec >= s.total_amount && s.status == RevRecStatus::Active {
                RevRecStatus::Completed
            } else {
                s.status
            },
            ..s
        }
    } else {
        s
    }
}

/// Schedules after posting `e`.
pub open spec fn recognize_all(ss: Seq<RevRecSchedule>, e: RevRecEntryDue) -> Seq<RevRecSchedule> {
    ss.map_values(|s: RevRecSchedule| recognize_one(s, e))
}

/// Schedules after posting each of `es` in turn.
pub open spec fn recognize_seq(ss: Seq<RevRecSchedule>, es: Seq<RevRecEntryDue>) -> Seq<
    RevRecSchedule,
>
    decreases es.len(),
{
    if es.len() == 0 {
        ss
    } else {
        recognize_all(recognize_seq(ss, es.drop_last()), es.last())
    }
}

proof fn lemma_recognize_seq_len(ss: Seq<RevRecSchedule>, es: Seq<RevRecEntryDue>)
    ensures
        recognize_seq(ss, es).len() == ss.len(),
    decreases es.len(),
{
    if es.len() > 0 {
        lemma_recognize_seq_len(ss, es.drop_last());
    }
}

/// Amounts of due entries.
pub open spec fn due_amounts(es: Seq<RevRecEntryDue>) -> Seq<int> {
    es.map_values(|e: RevRecEntryDue| e.amount as int)
}

/// Posting the entries never overflows the recognized amount of the schedule an entry is
/// due for, nor the total.
pub open spec fn recognition_fits(ss: Seq<RevRecSchedule>, es: Seq<RevRecEntryDue>) -> bool {
    &&& forall|k: int, i: int|
        0 <= k < es.len() && 0 <= i < ss.len()
            && (#[trigger] recognize_seq(ss, es.take(k))[i]).id == (#[trigger] es[k]).schedule_id
            ==> i64::MIN <= recognize_seq(ss, es.take(k))[i].recognized_amount + es[k].amount
            <= i64::MAX
    &&& prefix_sums_fit(due_amounts(es))
}

/// An entry of the period being recognized, as stored: posted or not yet.
#[derive(Debug, Clone, Copy, PartialEq, Eq, Structural)]
pub struct PeriodEntry {
    pub entry_id: u128,
    pub schedule_id: u128,
    pub amount: i64,
    pub posted: bool,
}

/// The entries not yet posted, in order.
pub open spec fn due_of(es: Seq<PeriodEntry>) -> Seq<RevRecEntryDue>
    decreases es.len(),
{
    if es.len() == 0 {
        Seq::empty()
    } else {
        let rest = due_of(es.drop_last());
        let e = es.last();
        if e.posted {
            rest
        } else {
            rest.push(RevRecEntryDue { entry_id: e.entry_id, schedule_id: e.schedule_id, amount: e.amount })
        }
    }
}

/// The same entries, all posted.
pub open spec fn mark_posted(es: Seq<PeriodEntry>) -> Seq<PeriodEntry> {
    es.map_values(
        |e: PeriodEntry|
            PeriodEntry { entry_id: e.entry_id, schedule_id: e.schedule_id, amount: e.amount, posted: true },
    )
}

/// A recognized period: what recognizing gave, and the period's entries afterwards.
pub struct PeriodRecognition {
    pub outcome: RecognitionOutcome,
    pub entries: Vec<PeriodEntry>,
}

/// Revenue is recognized only once: after a period is recognized every one of its entries
/// is posted, so none is due; recognizing the period again then needs no bound on any sum,
/// and is refused.
pub proof fn lemma_recognized_only_once(schedules: Seq<RevRecSchedule>, es: Seq<PeriodEntry>)
    ensures
        due_of(mark_posted(es)).len() == 0,
        recognition_fits(schedules, due_of(mark_posted(es))),
    decreases es.len(),
{
    if es.len() > 0 {
        assert(mark_posted(es).drop_last() =~= mark_posted(es.drop_last()));
        lemma_recognized_only_once(schedules, es.drop_last());
    }
    assert(due_amounts(due_of(mark_posted(es))) =~= Seq::<int>::empty());
    assert(prefix_sums_fit(Seq::<int>::empty())) by {
        assert forall|i: int| 0 <= i <= 0 implies i64::MIN <= #[trigger] sum(Seq::<int>::empty().take(i))
            <= i64::MAX by {
            assert(Seq::<int>::empty().take(i) =~= Seq::<int>::empty());
        }
    }
}

/// The outcome of recognizing a period.
pub struct RecognitionOutcome {
    pub schedules: Vec<RevRecSchedule>,
    pub entries_recognized: usize,
    pub total_amount: i64,
}

impl RevRecRepo {
    /// The period's entries not yet posted, in order.
    pub fn due_entries(es: &Vec<PeriodEntry>) -> (r: Vec<RevRecEntryDue>)
        ensures
            r@ == due_of(es@),
    {
        let mut out: Vec<RevRecEntryDue> = Vec::new();
        let mut i: usize = 0;
        while i < es.len()
            invariant
                i <= es.len(),
                out@ == due_of(es@.take(i as int)),
            decreases es.len() - i,
        {
            let e = es[i];
            proof {
                assert(es@.take(i + 1).drop_last() =~= es@.take(i as int));
            }
            if !e.posted {
                out.push(RevRecEntryDue { entry_id: e.entry_id, schedule_id: e.schedule_id, amount: e.amount });
            }
            i = i + 1;
        }
        proof {
            assert(es@.take(es.len() as int) =~= es@);
        }
        out
    }

    /// Recognizes a period from its stored entries: the entries not yet posted are
    /// recognized (see [`RevRecRepo::recognize`]) and every entry of the period is then
    /// posted. A period with nothing left to post is refused.
    pub fn recognize_period(schedules: &Vec<RevRecSchedule>, entries: &Vec<PeriodEntry>) -> (r: Result<
        PeriodRecognition,
        DbError,
    >)
        requires
            recognition_fits(schedules@, due_of(entries@)),
        ensures
            due_of(entries@).len() == 0 ==> r == Err::<PeriodRecognition, DbError>(
                DbError::Conflict(Conflict::NothingToRecognize),
            ),
            due_of(entries@).len() > 0 ==> (r matches Ok(p) && p.outcome.schedules@ == recognize_seq(
                schedules@,
                due_of(entries@),
            ) && p.outcome.entries_recognized == due_of(entries@).len() && p.outcome.total_amount
                == sum(due_amounts(due_of(entries@))) && p.entries@ == mark_posted(entries@)),
    {
        let due = Self::due_entries(entries);
        let outcome = match Self::recognize(schedules, &due) {
            Ok(o) => o,
            Err(e) => return Err(e),
        };
        let mut after: Vec<PeriodEntry> = Vec::new();
        let mut i: usize = 0;
        while i < entries.len()
            invariant
                i <= entries.len(),
                after@ == mark_posted(entries@.take(i as int)),
            decreases entries.len() - i,
        {
            let e = entries[i];
            after.push(PeriodEntry { entry_id: e.entry_id, schedule_id: e.schedule_id, amount: e.amount, posted: true });
            proof {
                assert(mark_posted(entries@.take(i + 1)) =~= mark_posted(entries@.take(i as int)).push(
                    after@.last(),
                ));
            }
            i = i + 1;
        }
        proof {
            assert(entries@.take(entries.len() as int) =~= entries@);
        }
        Ok(PeriodRecognition { outcome, entries: after })
    }

    /// Reads a period `YYYY-MM` (surrounding blanks allowed) as the first day of that
    /// month; anything else is refused.
    pub fn parse_period(period: &str) -> (r: Result<CalDate, DbError>)
        ensures
            match crate::time_ops::ymd_format_date(period_text(period@)) {
                Some(t) => r matches Ok(d) && d.valid() && t == (
                    d.year as int,
                    d.month as int,
                    d.day as int,
                ),
                None => r matches Err(e) && e matches DbError::Conflict(Conflict::InvalidPeriod(p))
                    && p@ == period@,
            },
    {
        let t = crate::text::str_trim(period);
        let mut padded = String::from_str(t);
        padded.append("-01");
        match crate::time_ops::date_parse_ymd(padded.as_str()) {
            Some(d) => Ok(d),
            None => Err(DbError::Conflict(Conflict::InvalidPeriod(String::from_str(period)))),
        }
    }

    /// The entries a new schedule gets: straight-line schedules are split over their
    /// months (see [`RevRecRepo::generate_straight_line_periods`]); other methods start
    /// without entries. Unknown methods are refused.
    pub fn plan_entries(method: &str, start: CalDate, end: CalDate, total: i64) -> (r: Result<
        Vec<(CalDate, i64)>,
        DbError,
    >)
        requires
            start.valid(),
            end.valid(),
        ensures
            !is_rev_rec_method(method@) ==> (r matches Err(e) && e matches DbError::Conflict(
                Conflict::InvalidRevRecMethod(s),
            ) && s@ == method@),
            is_rev_rec_method(method@) && method@ == "straight_line"@ ==> (r matches Ok(v) && v@
                == straight_line_schedule(start, end, total as int)),
            is_rev_rec_method(method@) && method@ != "straight_line"@ ==> (r matches Ok(v)
                && v.len() == 0),
    {
        Self::validate_method(method)?;
        if str_eq(method, "straight_line") {
            Ok(Self::generate_straight_line_periods(start, end, total))
        } else {
            Ok(Vec::new())
        }
    }

    /// Recognizes a period: posts every due entry in turn on its schedule (completing
    /// active schedules that reach their total) and reports how many entries and how much
    /// were recognized. A period without due entries is refused.
    pub fn recognize(schedules: &Vec<RevRecSchedule>, entries: &Vec<RevRecEntryDue>) -> (r: Result<
        RecognitionOutcome,
        DbError,
    >)
        requires
            recognition_fits(schedules@, entries@),
        ensures
            entries.len() == 0 ==> r == Err::<RecognitionOutcome, DbError>(
                DbError::Conflict(Conflict::NothingToRecognize),
            ),
            entries.len() > 0 ==> (r matches Ok(o) && o.schedules@ == recognize_seq(
                schedules@,
                entries@,
            ) && o.entries_recognized == entries.len() && o.total_amount == sum(
                due_amounts(entries@),
            )),
    {
        if entries.len() == 0 {
            return Err(DbError::Conflict(Conflict::NothingToRecognize));
        }
        let mut cur: Vec<RevRecSchedule> = schedules.clone();
        let mut total: i64 = 0;
        let mut k: usize = 0;
        proof {
            assert(cur@ =~= schedules@);
            assert(entries@.take(0) =~= Seq::<RevRecEntryDue>::empty());
        }
        while k < entries.len()
            invariant
                k <= entries.len(),
                recognition_fits(schedules@, entries@),
                cur@ == recognize_seq(schedules@, entries@.take(k as int)),
                total == sum(due_amounts(entries@).take(k as int)),
            decreases entries.len() - k,
        {
            let e = entries[k];
            let ghost before = cur@;
            let mut next: Vec<RevRecSchedule> = Vec::new();
            let mut i: usize = 0;
            while i < cur.len()
                invariant
                    i <= cur.len(),
                    k < entries.len(),
                    e == entries@[k as int],
                    before == cur@,
                    before == recognize_seq(schedules@, entries@.take(k as int)),
                    recognition_fits(schedules@, entries@),
                    next@ == recognize_all(before.take(i as int), e),
                decreases cur.len() - i,
            {
                let s = cur[i];
                let ns = if s.id == e.schedule_id {
                    proof {
                        lemma_recognize_seq_len(schedules@, entries@.take(k as int));
                        assert(recognize_seq(schedules@, entries@.take(k as int))[i as int].id
                            == entries@[k as int].schedule_id);
                    }
                    let rec = s.recognized_amount + e.amount;
                    let done = rec >= s.total_amount && s.status == RevRecStatus::Active;
                    RevRecSchedule {
                        id: s.id,
                        total_amount: s.total_amount,
                        recognized_amount: rec,
                        status: if done {
                            RevRecStatus::Completed
                        } else {
                            s.status
                        },
                    }
                } else {
                    s
                };
                next.push(ns);
                proof {
                    assert(next@ =~= recognize_all(before.take(i + 1), e));
                }
                i = i + 1;
            }
            proof {
                assert(before.take(before.len() as int) =~= before);
                assert(entries@.take(k + 1).drop_last() =~= entries@.take(k as int));
                lemma_sum_take_succ(due_amounts(entries@), k as int);
                assert(i64::MIN <= sum(due_amounts(entries@).take(k + 1)) <= i64::MAX);
            }
            cur = next;
            total = total + e.amount;
            k = k + 1;
        }
        proof {
            assert(entries@.take(entries.len() as int) =~= entries@);
            lemma_take_full(due_amounts(entries@));
        }
        Ok(RecognitionOutcome { schedules: cur, entries_recognized: entries.len(), total_amount: total })
    }
}

impl PrepaidExpenseRepo {
    /// The journal entry amortizing one prepaid entry: the expense account is debited and
    /// the asset account credited with the entry's amount; an entry already recognized is
    /// refused.
    pub fn plan_recognition(
        already_recognized: bool,
        expense_account_id: &str,
        asset_account_id: &str,
        amount: i64,
    ) -> (r: Result<Vec<crate::ledger::JournalLine>, DbError>)
        ensures
            already_recognized ==> r == Err::<Vec<crate::ledger::JournalLine>, DbError>(
                DbError::Conflict(Conflict::AlreadyRecognized),
            ),
            !already_recognized ==> (r matches Ok(lines) && lines.len() == 2
                && crate::ledger::is_debit_line(lines@[0], expense_account_id@, amount as int)
                && crate::ledger::is_credit_line(lines@[1], asset_account_id@, amount as int)
                && crate::ledger::balanced(lines@) && lines@[0].description is None
                && lines@[1].description is None),
    {
        if already_recognized {
            return Err(DbError::Conflict(Conflict::AlreadyRecognized));
        }
        Ok(crate::ledger::transfer_lines(expense_account_id, asset_account_id, amount, None, None))
    }
}

/// The amounts of the entries due for schedule `id` (zero for the others).
pub open spec fn due_for(es: Seq<RevRecEntryDue>, id: u128) -> Seq<int> {
    es.map_values(|e: RevRecEntryDue| if e.schedule_id == id { e.amount as int } else { 0 })
}

/// What fits for all entries fits for all but the last.
proof fn lemma_recognition_fits_drop_last(ss: Seq<RevRecSchedule>, es: Seq<RevRecEntryDue>)
    requires
        es.len() > 0,
        recognition_fits(ss, es),
    ensures
        recognition_fits(ss, es.drop_last()),
{
    let d = es.drop_last();
    assert forall|k: int, i: int|
        0 <= k < d.len() && 0 <= i < ss.len() && (#[trigger] recognize_seq(ss, d.take(k))[i]).id
            == (#[trigger] d[k]).schedule_id implies i64::MIN <= recognize_seq(
        ss,
        d.take(k),
    )[i].recognized_amount + d[k].amount <= i64::MAX by {
        assert(d.take(k) =~= es.take(k));
        assert(d[k] == es[k]);
        assert(recognize_seq(ss, es.take(k))[i].id == es[k].schedule_id);
    }
    assert forall|j: int| 0 <= j <= d.len() implies i64::MIN <= #[trigger] sum(
        due_amounts(d).take(j),
    ) <= i64::MAX by {
        assert(due_amounts(d).take(j) =~= due_amounts(es).take(j));
        assert(i64::MIN <= sum(due_amounts(es).take(j)) <= i64::MAX);
    }
}

/// Recognition adds to each schedule exactly the amounts of the entries due for it, and
/// changes neither its identity nor its total.
pub proof fn lemma_recognition_adds_due_amounts(
    ss: Seq<RevRecSchedule>,
    es: Seq<RevRecEntryDue>,
    i: int,
)
    requires
        0 <= i < ss.len(),
        recognition_fits(ss, es),
    ensures
        recognize_seq(ss, es).len() == ss.len(),
        recognize_seq(ss, es)[i].id == ss[i].id,
        recognize_seq(ss, es)[i].total_amount == ss[i].total_amount,
        recognize_seq(ss, es)[i].recognized_amount == ss[i].recognized_amount + sum(
            due_for(es, ss[i].id),
        ),
    decreases es.len(),
{
    lemma_recognize_seq_len(ss, es);
    if es.len() > 0 {
        let d = es.drop_last();
        let e = es.last();
        lemma_recognition_fits_drop_last(ss, es);
        lemma_recognition_adds_due_amounts(ss, d, i);
        lemma_recognize_seq_len(ss, d);
        assert(es.take(es.len() - 1) =~= d);
        if ss[i].id == e.schedule_id {
            assert(recognize_seq(ss, es.take(es.len() - 1))[i].id == es[es.len() - 1].schedule_id);
        }
        assert(due_for(es, ss[i].id).drop_last() =~= due_for(d, ss[i].id));
    }
}

} // verus!
