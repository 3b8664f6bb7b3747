//! Project profitability, vendor spend and goods-received-not-invoiced accruals.
use vstd::prelude::*;

use crate::recurring::div_trunc;
use crate::reports::ReportRepo;
use crate::seqs::{lemma_sum_take_succ, lemma_take_full, prefix_sums_fit, sum};

verus! {

/// A project's invoiced amount and costs.
pub struct ProjectFigures {
    pub project_id: u128,
    pub invoiced_amount: i64,
    pub expense_amount: i64,
    pub time_cost: i64,
}

/// A project's line of the profitability report.
#[derive(Debug, Clone, Copy, PartialEq, Eq, Structural)]
pub struct ProfitabilityRow {
    pub project_id: u128,
    pub invoiced_amount: i64,
    pub expense_amount: i64,
    pub time_cost: i64,
    pub gross_profit: i64,
    pub margin_bps: i64,
}

/// The profitability report's totals.
pub struct ProfitabilityReport {
    pub rows: Vec<ProfitabilityRow>,
    pub total_invoiced: i64,
    pub total_expenses: i64,
    pub total_time_cost: i64,
    pub total_profit: i64,
}

/// Gross profit of a project: invoiced less expenses less time cost.
pub open spec fn gross_profit(p: ProjectFigures) -> int {
    p.invoiced_amount - p.expense_amount - p.time_cost
}

/// Margin in basis points of what was invoiced (truncated); zero when nothing was.
pub open spec fn margin_bps(p: ProjectFigures) -> int {
    if p.invoiced_amount > 0 {
        div_trunc(gross_profit(p) * 10_000, p.invoiced_amount as int)
    } else {
        0
    }
}

/// Invoiced amounts.
pub open spec fn invoiced_col(ps: Seq<ProjectFigures>) -> Seq<int> {
    ps.map_values(|p: ProjectFigures| p.invoiced_amount as int)
}

/// Expense amounts.
pub open spec fn expense_col(ps: Seq<ProjectFigures>) -> Seq<int> {
    ps.map_values(|p: ProjectFigures| p.expense_amount as int)
}

/// Time costs.
pub open spec fn time_col(ps: Seq<ProjectFigures>) -> Seq<int> {
    ps.map_values(|p: ProjectFigures| p.time_cost as int)
}

/// Gross profits.
pub open spec fn profit_col(ps: Seq<ProjectFigures>) -> Seq<int> {
    ps.map_values(|p: ProjectFigures| gross_profit(p))
}

/// The report's arithmetic stays within 64 bits.
pub open spec fn profitability_fits(ps: Seq<ProjectFigures>) -> bool {
    &&& forall|i: int|
        0 <= i < ps.len() ==> i64::MIN <= (#[trigger] ps[i]).invoiced_amount - ps[i].expense_amount
            <= i64::MAX && i64::MIN <= gross_profit(ps[i]) <= i64::MAX && i64::MIN <= gross_profit(
            ps[i],
        ) * 10_000 <= i64::MAX
    &&& prefix_sums_fit(invoiced_col(ps))
    &&& prefix_sums_fit(expense_col(ps))
    &&& prefix_sums_fit(time_col(ps))
    &&& i64::MIN <= sum(invoiced_col(ps)) - sum(expense_col(ps)) <= i64::MAX
    &&& i64::MIN <= sum(invoiced_col(ps)) - sum(expense_col(ps)) - sum(time_col(ps)) <= i64::MAX
}

impl ReportRepo {
    /// Project profitability: each project's gross profit and margin, and the totals;
    /// total profit is total invoiced less total expenses less total time cost.
    pub fn project_profitability(projects: &Vec<ProjectFigures>) -> (r: ProfitabilityReport)
        requires
            profitability_fits(projects@),
        ensures
            r.rows.len() == projects.len(),
            forall|i: int|
                0 <= i < projects.len() ==> {
                    let p = projects@[i];
                    let row = #[trigger] r.rows@[i];
                    &&& row.project_id == p.project_id
                    &&& row.invoiced_amount == p.invoiced_amount
                    &&& row.expense_amount == p.expense_amount
                    &&& row.time_cost == p.time_cost
                    &&& row.gross_profit == gross_profit(p)
                    &&& row.margin_bps == margin_bps(p)
                },
            r.total_invoiced == sum(invoiced_col(projects@)),
            r.total_expenses == sum(expense_col(projects@)),
            r.total_time_cost == sum(time_col(projects@)),
            r.total_profit == r.total_invoiced - r.total_expenses - r.total_time_cost,
    {
        let ghost ps = projects@;
        let mut rows: Vec<ProfitabilityRow> = Vec::new();
        let mut ti: i64 = 0;
        let mut te: i64 = 0;
        let mut tt: i64 = 0;
        let mut i: usize = 0;
        while i < projects.len()
            invariant
                i <= projects.len(),
                ps == projects@,
                profitability_fits(ps),
                rows.len() == i,
                forall|k: int|
                    0 <= k < i ==> {
                        let p = ps[k];
                        let row = #[trigger] rows@[k];
                        &&& row.project_id == p.project_id
                        &&& row.invoiced_amount == p.invoiced_amount
                        &&& row.expense_amount == p.expense_amount
                        &&& row.time_cost == p.time_cost
                        &&& row.gross_profit == gross_profit(p)
                        &&& row.margin_bps == margin_bps(p)
                    },
                ti == sum(invoiced_col(ps).take(i as int)),
                te == sum(expense_col(ps).take(i as int)),
                tt == sum(time_col(ps).take(i as int)),
            decreases projects.len() - i,
        {
            let p = &projects[i];
            proof {
                lemma_sum_take_succ(invoiced_col(ps), i as int);
                lemma_sum_take_succ(expense_col(ps), i as int);
                lemma_sum_take_succ(time_col(ps), i as int);
                assert(i64::MIN <= sum(invoiced_col(ps).take(i + 1)) <= i64::MAX);
                assert(i64::MIN <= sum(expense_col(ps).take(i + 1)) <= i64::MAX);
                assert(i64::MIN <= sum(time_col(ps).take(i + 1)) <= i64::MAX);
                assert(i64::MIN <= gross_profit(ps[i as int]) * 10_000 <= i64::MAX);
                assert(i64::MIN <= ps[i as int].invoiced_amount - ps[i as int].expense_amount
                    <= i64::MAX);
            }
            let gp = p.invoiced_amount - p.expense_amount - p.time_cost;
            let margin = if p.invoiced_amount > 0 {
                gp * 10_000 / p.invoiced_amount
            } else {
                0
            };
            rows.push(
                ProfitabilityRow {
                    project_id: p.project_id,
                    invoiced_amount: p.invoiced_amount,
                    expense_amount: p.expense_amount,
                    time_cost: p.time_cost,
                    gross_profit: gp,
                    margin_bps: margin,
                },
            );
            ti = ti + p.invoiced_amount;
            te = te + p.expense_amount;
            tt = tt + p.time_cost;
            i = i + 1;
        }
        proof {
            lemma_take_full(invoiced_col(ps));
            lemma_take_full(expense_col(ps));
            lemma_take_full(time_col(ps));
        }
        ProfitabilityReport {
            rows,
            total_invoiced: ti,
            total_expenses: te,
            total_time_cost: tt,
            total_profit: ti - te - tt,
        }
    }
}

/// The total profit is the sum of the projects' gross profits.
pub proof fn lemma_total_profit(ps: Seq<ProjectFigures>)
    ensures
        sum(profit_col(ps)) == sum(invoiced_col(ps)) - sum(expense_col(ps)) - sum(time_col(ps)),
    decreases ps.len(),
{
    if ps.len() > 0 {
        lemma_total_profit(ps.drop_last());
        assert(profit_col(ps).drop_last() =~= profit_col(ps.drop_last()));
        assert(invoiced_col(ps).drop_last() =~= invoiced_col(ps.drop_last()));
        assert(expense_col(ps).drop_last() =~= expense_col(ps.drop_last()));
        assert(time_col(ps).drop_last() =~= time_col(ps.drop_last()));
    }
}

// ── vendor spend ───────────────────────────────────────────────────────────────

/// A vendor's bills and payments.
#[derive(Debug, Clone, Copy, PartialEq, Eq, Structural)]
pub struct VendorFigures {
    pub bill_count: i64,
    pub subtotal: i64,
    pub amount_paid: i64,
}

/// What is still owed to a vendor: billed less paid, never negative.
pub open spec fn outstanding(v: VendorFigures) -> int {
    if v.subtotal - v.amount_paid > 0 {
        v.subtotal - v.amount_paid
    } else {
        0
    }
}

/// Columns of vendor figures: 0 bills, 1 subtotal, 2 paid, 3 outstanding.
pub open spec fn vendor_col(vs: Seq<VendorFigures>, c: int) -> Seq<int> {
    vs.map_values(
        |v: VendorFigures|
            if c == 0 {
                v.bill_count as int
            } else if c == 1 {
                v.subtotal as int
            } else if c == 2 {
                v.amount_paid as int
            } else {
                outstanding(v)
            },
    )
}

/// Vendor spend totals.
pub struct VendorSpendTotals {
    pub outstanding: Vec<i64>,
    pub total_bills: i64,
    pub total_subtotal: i64,
    pub total_paid: i64,
    pub total_outstanding: i64,
}

impl ReportRepo {
    /// Vendor spend: what each vendor is still owed (never negative) and the column
    /// totals.
    pub fn vendor_spend(vendors: &Vec<VendorFigures>) -> (r: VendorSpendTotals)
        requires
            forall|i: int|
                0 <= i < vendors.len() ==> i64::MIN <= (#[trigger] vendors[i]).subtotal
                    - vendors[i].amount_paid <= i64::MAX,
            forall|c: int| 0 <= c < 4 ==> prefix_sums_fit(#[trigger] vendor_col(vendors@, c)),
        ensures
            r.outstanding.len() == vendors.len(),
            forall|i: int|
                0 <= i < vendors.len() ==> #[trigger] r.outstanding@[i] == outstanding(vendors@[i]),
            r.total_bills == sum(vendor_col(vendors@, 0)),
            r.total_subtotal == sum(vendor_col(vendors@, 1)),
            r.total_paid == sum(vendor_col(vendors@, 2)),
            r.total_outstanding == sum(vendor_col(vendors@, 3)),
    {
        let ghost vs = vendors@;
        let mut outs: Vec<i64> = Vec::new();
        let mut t: [i64; 4] = [0, 0, 0, 0];
        let mut i: usize = 0;
        while i < vendors.len()
            invariant
                i <= vendors.len(),
                vs == vendors@,
                forall|k: int|
                    0 <= k < vendors.len() ==> i64::MIN <= (#[trigger] vs[k]).subtotal
                        - vs[k].amount_paid <= i64::MAX,
                forall|c: int| 0 <= c < 4 ==> prefix_sums_fit(#[trigger] vendor_col(vs, c)),
                outs.len() == i,
                forall|k: int| 0 <= k < i ==> #[trigger] outs@[k] == outstanding(vs[k]),
                forall|c: int| 0 <= c < 4 ==> t@[c] == sum(#[trigger] vendor_col(vs, c).take(i as int)),
            decreases vendors.len() - i,
        {
            let v = vendors[i];
            proof {
                lemma_sum_take_succ(vendor_col(vs, 0), i as int);
                lemma_sum_take_succ(vendor_col(vs, 1), i as int);
                lemma_sum_take_succ(vendor_col(vs, 2), i as int);
                lemma_sum_take_succ(vendor_col(vs, 3), i as int);
                assert(prefix_sums_fit(vendor_col(vs, 0)));
                assert(prefix_sums_fit(vendor_col(vs, 1)));
                assert(prefix_sums_fit(vendor_col(vs, 2)));
                assert(prefix_sums_fit(vendor_col(vs, 3)));
                assert(i64::MIN <= sum(vendor_col(vs, 0).take(i + 1)) <= i64::MAX);
                assert(i64::MIN <= sum(vendor_col(vs, 1).take(i + 1)) <= i64::MAX);
                assert(i64::MIN <= sum(vendor_col(vs, 2).take(i + 1)) <= i64::MAX);
                assert(i64::MIN <= sum(vendor_col(vs, 3).take(i + 1)) <= i64::MAX);
                assert(t@[0] == sum(vendor_col(vs, 0).take(i as int)));
                assert(t@[1] == sum(vendor_col(vs, 1).take(i as int)));
                assert(t@[2] == sum(vendor_col(vs, 2).take(i as int)));
                assert(t@[3] == sum(vendor_col(vs, 3).take(i as int)));
                assert(vendor_col(vs, 0)[i as int] == v.bill_count);
                assert(vendor_col(vs, 1)[i as int] == v.subtotal);
                assert(vendor_col(vs, 2)[i as int] == v.amount_paid);
                assert(vendor_col(vs, 3)[i as int] == outstanding(v));
            }
            let diff = v.subtotal - v.amount_paid;
            let o = if diff > 0 {
                diff
            } else {
                0
            };
            outs.push(o);
            t[0] = t[0] + v.bill_count;
            t[1] = t[1] + v.subtotal;
            t[2] = t[2] + v.amount_paid;
            t[3] = t[3] + o;
            proof {
                assert forall|c: int| 0 <= c < 4 implies t@[c] == sum(
                    #[trigger] vendor_col(vs, c).take(i + 1),
                ) by {
                    lemma_sum_take_succ(vendor_col(vs, c), i as int);
                }
            }
            i = i + 1;
        }
        proof {
            lemma_take_full(vendor_col(vs, 0));
            lemma_take_full(vendor_col(vs, 1));
            lemma_take_full(vendor_col(vs, 2));
            lemma_take_full(vendor_col(vs, 3));
            assert(t@[0] == sum(vendor_col(vs, 0).take(vendors.len() as int)));
            assert(t@[1] == sum(vendor_col(vs, 1).take(vendors.len() as int)));
            assert(t@[2] == sum(vendor_col(vs, 2).take(vendors.len() as int)));
            assert(t@[3] == sum(vendor_col(vs, 3).take(vendors.len() as int)));
        }
        VendorSpendTotals {
            outstanding: outs,
            total_bills: t[0],
            total_subtotal: t[1],
            total_paid: t[2],
            total_outstanding: t[3],
        }
    }
}

// ── goods received, not invoiced ───────────────────────────────────────────────

/// Accruals of received lines: quantity × unit cost.
pub open spec fn accruals(lines: Seq<(i64, i64)>) -> Seq<int> {
    lines.map_values(|l: (i64, i64)| l.0 * l.1)
}

impl ReportRepo {
    /// The accrual for goods received but not invoiced: each line's quantity × unit cost,
    /// and their total.
    pub fn grni_accrual(lines: &Vec<(i64, i64)>) -> (r: (Vec<i64>, i64))
        requires
            forall|i: int|
                0 <= i < lines.len() ==> i64::MIN <= (#[trigger] lines[i]).0 * lines[i].1
                    <= i64::MAX,
            prefix_sums_fit(accruals(lines@)),
        ensures
            r.0.len() == lines.len(),
            forall|i: int| 0 <= i < lines.len() ==> #[trigger] r.0@[i] == lines@[i].0 * lines@[i].1,
            r.1 == sum(accruals(lines@)),
    {
        let mut out: Vec<i64> = Vec::new();
        let mut t: i64 = 0;
        let mut i: usize = 0;
        while i < lines.len()
            invariant
                i <= lines.len(),
                forall|k: int|
                    0 <= k < lines.len() ==> i64::MIN <= (#[trigger] lines[k]).0 * lines[k].1
                        <= i64::MAX,
                prefix_sums_fit(accruals(lines@)),
                out.len() == i,
                forall|k: int| 0 <= k < i ==> #[trigger] out@[k] == lines@[k].0 * lines@[k].1,
                t == sum(accruals(lines@).take(i as int)),
            decreases lines.len() - i,
        {
            proof {
                lemma_sum_take_succ(accruals(lines@), i as int);
                assert(i64::MIN <= sum(accruals(lines@).take(i + 1)) <= i64::MAX);
            }
            let (q, c) = lines[i];
            let a = q * c;
            out.push(a);
            t = t + a;
            i = i + 1;
        }
        proof {
            lemma_take_full(accruals(lines@));
        }
        (out, t)
    }
}

} // verus!
