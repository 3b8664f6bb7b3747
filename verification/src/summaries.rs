//! Totals of report rows: tax collected and paid, payroll runs, product sales, cash-basis
//! profit and loss, consolidation across organizations, period comparison, quarterly
//! payroll-tax deposits and spend analysis.
use vstd::prelude::*;

use crate::error::{Conflict, DbError};
use crate::payroll::RunTotals;
use crate::recurring::div_trunc;
use crate::reports::ReportRepo;
use crate::seqs::{lemma_sum_take_succ, lemma_take_full, prefix_sums_fit, sum};
use crate::text::str_eq;

verus! {

/// The values of a column as integers.
pub open spec fn ints(v: Seq<i64>) -> Seq<int> {
    v.map_values(|x: i64| x as int)
}

/// The sum of a column of amounts.
pub fn column_total(v: &Vec<i64>) -> (r: i64)
    requires
        prefix_sums_fit(ints(v@)),
    ensures
        r == sum(ints(v@)),
{
    let mut t: i64 = 0;
    let mut i: usize = 0;
    while i < v.len()
        invariant
            i <= v.len(),
            prefix_sums_fit(ints(v@)),
            t == sum(ints(v@).take(i as int)),
        decreases v.len() - i,
    {
        proof {
            lemma_sum_take_succ(ints(v@), i as int);
            assert(i64::MIN <= sum(ints(v@).take(i + 1)) <= i64::MAX);
        }
        t = t + v[i];
        i = i + 1;
    }
    proof {
        lemma_take_full(ints(v@));
    }
    t
}

// ── tax summary ────────────────────────────────────────────────────────────────

/// Tax collected on invoices and paid on bills at one tax rate.
pub struct TaxFigures {
    pub tax_collected: i64,
    pub tax_paid: i64,
}

/// The tax summary's figures: the net of each rate, the column totals and the overall net.
pub struct TaxSummaryTotals {
    pub nets: Vec<i64>,
    pub total_collected: i64,
    pub total_paid: i64,
    pub net: i64,
}

/// The tax-collected column.
pub open spec fn collected(rs: Seq<TaxFigures>) -> Seq<int> {
    rs.map_values(|r: TaxFigures| r.tax_collected as int)
}

/// The tax-paid column.
pub open spec fn paid(rs: Seq<TaxFigures>) -> Seq<int> {
    rs.map_values(|r: TaxFigures| r.tax_paid as int)
}

// ── payroll summary ────────────────────────────────────────────────────────────

/// The gross column of payroll runs.
pub open spec fn run_gross(rs: Seq<RunTotals>) -> Seq<int> {
    rs.map_values(|r: RunTotals| r.total_gross as int)
}

/// The tax column of payroll runs.
pub open spec fn run_tax(rs: Seq<RunTotals>) -> Seq<int> {
    rs.map_values(|r: RunTotals| r.total_tax as int)
}

/// The net-pay column of payroll runs.
pub open spec fn run_net(rs: Seq<RunTotals>) -> Seq<int> {
    rs.map_values(|r: RunTotals| r.total_net as int)
}

// ── sales by product ───────────────────────────────────────────────────────────

/// A product's sales in a period.
pub struct ProductSales {
    pub gross_amount: i64,
    pub discount_amount: i64,
    pub net_amount: i64,
    pub tax_amount: i64,
}

/// Column totals of the sales-by-product report.
pub struct SalesTotals {
    pub total_gross: i64,
    pub total_discount: i64,
    pub total_net: i64,
    pub total_tax: i64,
}

/// One column of the sales-by-product report: 0 gross, 1 discount, 2 net, 3 tax.
pub open spec fn sales_column(rs: Seq<ProductSales>, c: int) -> Seq<int> {
    rs.map_values(
        |r: ProductSales|
            if c == 0 {
                r.gross_amount as int
            } else if c == 1 {
                r.discount_amount as int
            } else if c == 2 {
                r.net_amount as int
            } else {
                r.tax_amount as int
            },
    )
}

// ── quarterly payroll-tax deposits ─────────────────────────────────────────────

/// A payroll-tax liability of the quarter: its type and the employee's and employer's
/// shares.
pub struct TaxLiability {
    pub tax_type: String,
    pub employee_amount: i64,
    pub employer_amount: i64,
}

/// The quarter's deposits by kind, and everything deposited.
pub struct Form941Deposits {
    pub federal_income_tax: i64,
    pub social_security_employee: i64,
    pub social_security_employer: i64,
    pub medicare_employee: i64,
    pub medicare_employer: i64,
    pub total_deposits: i64,
}

/// The employee's (or employer's) shares of the liabilities of type `t`, and zero for the
/// other liabilities.
pub open spec fn typed_shares(rs: Seq<TaxLiability>, t: Seq<char>, employer: bool) -> Seq<int> {
    rs.map_values(
        |r: TaxLiability|
            if r.tax_type@ == t {
                if employer {
                    r.employer_amount as int
                } else {
                    r.employee_amount as int
                }
            } else {
                0int
            },
    )
}

/// Both shares of every liability.
pub open spec fn deposits(rs: Seq<TaxLiability>) -> Seq<int> {
    rs.map_values(|r: TaxLiability| r.employee_amount + r.employer_amount)
}

/// The sums a quarter's deposits are made of stay in range.
pub open spec fn deposits_fit(rs: Seq<TaxLiability>) -> bool {
    &&& prefix_sums_fit(typed_shares(rs, "federal_income"@, false))
    &&& prefix_sums_fit(typed_shares(rs, "social_security"@, false))
    &&& prefix_sums_fit(typed_shares(rs, "social_security"@, true))
    &&& prefix_sums_fit(typed_shares(rs, "medicare"@, false))
    &&& prefix_sums_fit(typed_shares(rs, "medicare"@, true))
    &&& prefix_sums_fit(deposits(rs))
    &&& forall|i: int|
        0 <= i < rs.len() ==> i64::MIN <= (#[trigger] rs[i]).employee_amount + rs[i].employer_amount
            <= i64::MAX
}

// ── period comparison ──────────────────────────────────────────────────────────

/// Rust's truncating division for a divisor of either sign.
pub open spec fn quot_trunc(a: int, d: int) -> int {
    if d > 0 {
        div_trunc(a, d)
    } else {
        -div_trunc(a, -d)
    }
}

impl ReportRepo {
    /// The tax summary: each rate's tax collected less tax paid, the totals of both
    /// columns, and their difference.
    pub fn tax_summary(rows: &Vec<TaxFigures>) -> (r: TaxSummaryTotals)
        requires
            forall|i: int|
                0 <= i < rows.len() ==> i64::MIN <= (#[trigger] rows[i]).tax_collected
                    - rows[i].tax_paid <= i64::MAX,
            prefix_sums_fit(collected(rows@)),
            prefix_sums_fit(paid(rows@)),
            i64::MIN <= sum(collected(rows@)) - sum(paid(rows@)) <= i64::MAX,
        ensures
            r.nets.len() == rows.len(),
            forall|i: int|
                0 <= i < rows.len() ==> #[trigger] r.nets@[i] == rows@[i].tax_collected
                    - rows@[i].tax_paid,
            r.total_collected == sum(collected(rows@)),
            r.total_paid == sum(paid(rows@)),
            r.net == r.total_collected - r.total_paid,
    {
        let ghost rs = rows@;
        let mut nets: Vec<i64> = Vec::new();
        let mut tc: i64 = 0;
        let mut tp: i64 = 0;
        let mut i: usize = 0;
        while i < rows.len()
            invariant
                i <= rows.len(),
                rs == rows@,
                forall|k: int|
                    0 <= k < rows.len() ==> i64::MIN <= (#[trigger] rs[k]).tax_collected
                        - rs[k].tax_paid <= i64::MAX,
                prefix_sums_fit(collected(rs)),
                prefix_sums_fit(paid(rs)),
                nets.len() == i,
                forall|k: int|
                    0 <= k < i ==> #[trigger] nets@[k] == rs[k].tax_collected - rs[k].tax_paid,
                tc == sum(collected(rs).take(i as int)),
                tp == sum(paid(rs).take(i as int)),
            decreases rows.len() - i,
        {
            proof {
                lemma_sum_take_succ(collected(rs), i as int);
                lemma_sum_take_succ(paid(rs), i as int);
                assert(i64::MIN <= sum(collected(rs).take(i + 1)) <= i64::MAX);
                assert(i64::MIN <= sum(paid(rs).take(i + 1)) <= i64::MAX);
                assert(i64::MIN <= rs[i as int].tax_collected - rs[i as int].tax_paid <= i64::MAX);
            }
            let row = &rows[i];
            nets.push(row.tax_collected - row.tax_paid);
            tc = tc + row.tax_collected;
            tp = tp + row.tax_paid;
            i = i + 1;
        }
        proof {
            lemma_take_full(collected(rs));
            lemma_take_full(paid(rs));
        }
        TaxSummaryTotals { nets, total_collected: tc, total_paid: tp, net: tc - tp }
    }

    /// The payroll summary's totals: gross, tax and net pay summed over the runs.
    pub fn payroll_summary(runs: &Vec<RunTotals>) -> (r: RunTotals)
        requires
            prefix_sums_fit(run_gross(runs@)),
            prefix_sums_fit(run_tax(runs@)),
            prefix_sums_fit(run_net(runs@)),
        ensures
            r.total_gross == sum(run_gross(runs@)),
            r.total_tax == sum(run_tax(runs@)),
            r.total_net == sum(run_net(runs@)),
    {
        let ghost rs = runs@;
        let mut g: i64 = 0;
        let mut t: i64 = 0;
        let mut n: i64 = 0;
        let mut i: usize = 0;
        while i < runs.len()
            invariant
                i <= runs.len(),
                rs == runs@,
                prefix_sums_fit(run_gross(rs)),
                prefix_sums_fit(run_tax(rs)),
                prefix_sums_fit(run_net(rs)),
                g == sum(run_gross(rs).take(i as int)),
                t == sum(run_tax(rs).take(i as int)),
                n == sum(run_net(rs).take(i as int)),
            decreases runs.len() - i,
        {
            proof {
                lemma_sum_take_succ(run_gross(rs), i as int);
                lemma_sum_take_succ(run_tax(rs), i as int);
                lemma_sum_take_succ(run_net(rs), i as int);
                assert(i64::MIN <= sum(run_gross(rs).take(i + 1)) <= i64::MAX);
                assert(i64::MIN <= sum(run_tax(rs).take(i + 1)) <= i64::MAX);
                assert(i64::MIN <= sum(run_net(rs).take(i + 1)) <= i64::MAX);
            }
            g = g + runs[i].total_gross;
            t = t + runs[i].total_tax;
            n = n + runs[i].total_net;
            i = i + 1;
        }
        proof {
            lemma_take_full(run_gross(rs));
            lemma_take_full(run_tax(rs));
            lemma_take_full(run_net(rs));
        }
        RunTotals { total_gross: g, total_tax: t, total_net: n }
    }

    /// The sales-by-product totals: gross, discount, net and tax summed over the products.
    pub fn sales_by_product(rows: &Vec<ProductSales>) -> (r: SalesTotals)
        requires
            forall|c: int| 0 <= c < 4 ==> prefix_sums_fit(#[trigger] sales_column(rows@, c)),
        ensures
            r.total_gross == sum(sales_column(rows@, 0)),
            r.total_discount == sum(sales_column(rows@, 1)),
            r.total_net == sum(sales_column(rows@, 2)),
            r.total_tax == sum(sales_column(rows@, 3)),
    {
        let ghost rs = rows@;
        proof {
            assert(prefix_sums_fit(sales_column(rs, 0)));
            assert(prefix_sums_fit(sales_column(rs, 1)));
            assert(prefix_sums_fit(sales_column(rs, 2)));
            assert(prefix_sums_fit(sales_column(rs, 3)));
        }
        let mut tg: i64 = 0;
        let mut td: i64 = 0;
        let mut tn: i64 = 0;
        let mut tt: i64 = 0;
        let mut i: usize = 0;
        while i < rows.len()
            invariant
                i <= rows.len(),
                rs == rows@,
                prefix_sums_fit(sales_column(rs, 0)),
                prefix_sums_fit(sales_column(rs, 1)),
                prefix_sums_fit(sales_column(rs, 2)),
                prefix_sums_fit(sales_column(rs, 3)),
                tg == sum(sales_column(rs, 0).take(i as int)),
                td == sum(sales_column(rs, 1).take(i as int)),
                tn == sum(sales_column(rs, 2).take(i as int)),
                tt == sum(sales_column(rs, 3).take(i as int)),
            decreases rows.len() - i,
        {
            proof {
                lemma_sum_take_succ(sales_column(rs, 0), i as int);
                lemma_sum_take_succ(sales_column(rs, 1), i as int);
                lemma_sum_take_succ(sales_column(rs, 2), i as int);
                lemma_sum_take_succ(sales_column(rs, 3), i as int);
                assert(i64::MIN <= sum(sales_column(rs, 0).take(i + 1)) <= i64::MAX);
                assert(i64::MIN <= sum(sales_column(rs, 1).take(i + 1)) <= i64::MAX);
                assert(i64::MIN <= sum(sales_column(rs, 2).take(i + 1)) <= i64::MAX);
                assert(i64::MIN <= sum(sales_column(rs, 3).take(i + 1)) <= i64::MAX);
            }
            let row = &rows[i];
            tg = tg + row.gross_amount;
            td = td + row.discount_amount;
            tn = tn + row.net_amount;
            tt = tt + row.tax_amount;
            i = i + 1;
        }
        proof {
            lemma_take_full(sales_column(rs, 0));
            lemma_take_full(sales_column(rs, 1));
            lemma_take_full(sales_column(rs, 2));
            lemma_take_full(sales_column(rs, 3));
        }
        SalesTotals { total_gross: tg, total_discount: td, total_net: tn, total_tax: tt }
    }

    /// Cash-basis profit and loss from the cash received and the expense totals of each
    /// category: the expense total and the net income.
    pub fn profit_loss_cash(total_revenue: i64, expense_totals: &Vec<i64>) -> (r: (i64, i64))
        requires
            prefix_sums_fit(ints(expense_totals@)),
            i64::MIN <= total_revenue - sum(ints(expense_totals@)) <= i64::MAX,
        ensures
            r.0 == sum(ints(expense_totals@)),
            r.1 == total_revenue - r.0,
    {
        let expense_total = column_total(expense_totals);
        (expense_total, total_revenue - expense_total)
    }

    /// Profit and loss consolidated over organizations, from each one's revenue and
    /// expense totals: the combined revenue, the combined expenses and their difference.
    pub fn consolidate(orgs: &Vec<(i64, i64)>) -> (r: (i64, i64, i64))
        requires
            prefix_sums_fit(orgs@.map_values(|o: (i64, i64)| o.0 as int)),
            prefix_sums_fit(orgs@.map_values(|o: (i64, i64)| o.1 as int)),
            i64::MIN <= sum(orgs@.map_values(|o: (i64, i64)| o.0 as int)) - sum(
                orgs@.map_values(|o: (i64, i64)| o.1 as int),
            ) <= i64::MAX,
        ensures
            r.0 == sum(orgs@.map_values(|o: (i64, i64)| o.0 as int)),
            r.1 == sum(orgs@.map_values(|o: (i64, i64)| o.1 as int)),
            r.2 == r.0 - r.1,
    {
        let ghost revs = orgs@.map_values(|o: (i64, i64)| o.0 as int);
        let ghost exps = orgs@.map_values(|o: (i64, i64)| o.1 as int);
        let mut rev: i64 = 0;
        let mut exp: i64 = 0;
        let mut i: usize = 0;
        while i < orgs.len()
            invariant
                i <= orgs.len(),
                revs == orgs@.map_values(|o: (i64, i64)| o.0 as int),
                exps == orgs@.map_values(|o: (i64, i64)| o.1 as int),
                prefix_sums_fit(revs),
                prefix_sums_fit(exps),
                rev == sum(revs.take(i as int)),
                exp == sum(exps.take(i as int)),
            decreases orgs.len() - i,
        {
            proof {
                lemma_sum_take_succ(revs, i as int);
                lemma_sum_take_succ(exps, i as int);
                assert(i64::MIN <= sum(revs.take(i + 1)) <= i64::MAX);
                assert(i64::MIN <= sum(exps.take(i + 1)) <= i64::MAX);
            }
            rev = rev + orgs[i].0;
            exp = exp + orgs[i].1;
            i = i + 1;
        }
        proof {
            lemma_take_full(revs);
            lemma_take_full(exps);
        }
        (rev, exp, rev - exp)
    }

    /// Comparison of two periods' net income: the change, and the change in basis points
    /// of the prior period's net income (zero when that is zero), truncated.
    pub fn pl_change(current_net: i64, prior_net: i64) -> (r: (i64, i64))
        requires
            i64::MIN <= (current_net - prior_net) * 10_000 <= i64::MAX,
            !(prior_net == -1 && (current_net - prior_net) * 10_000 == i64::MIN),
        ensures
            r.0 == current_net - prior_net,
            r.1 == if prior_net == 0 {
                0
            } else {
                quot_trunc(r.0 * 10_000, prior_net as int)
            },
    {
        proof {
            assert(i64::MIN <= current_net - prior_net <= i64::MAX) by (nonlinear_arith)
                requires
                    i64::MIN <= (current_net - prior_net) * 10_000 <= i64::MAX,
            ;
        }
        let change = current_net - prior_net;
        let scaled = change * 10_000;
        let bps: i64 = if prior_net == 0 {
            0
        } else if prior_net > 0 {
            scaled / prior_net
        } else {
            let d: i128 = -(prior_net as i128);
            let q: i128 = (scaled as i128) / d;
            proof {
                assert(q == div_trunc(scaled as int, d as int));
                assert(-i64::MAX <= q <= i64::MAX) by (nonlinear_arith)
                    requires
                        q == div_trunc(scaled as int, d as int),
                        d >= 1,
                        i64::MIN <= scaled <= i64::MAX,
                        !(d == 1 && scaled == i64::MIN),
                ;
            }
            (-q) as i64
        };
        (change, bps)
    }

    /// A report quarter is one of 1 to 4.
    pub fn check_report_quarter(quarter: i32) -> (r: Result<(), DbError>)
        ensures
            1 <= quarter <= 4 ==> r is Ok,
            !(1 <= quarter <= 4) ==> r == Err::<(), DbError>(
                DbError::Conflict(Conflict::QuarterOutOfRange),
            ),
    {
        if quarter < 1 || quarter > 4 {
            return Err(DbError::Conflict(Conflict::QuarterOutOfRange));
        }
        Ok(())
    }

    /// The quarter's payroll-tax deposits: federal income tax (employee shares), social
    /// security and medicare (each share apart), and both shares of every liability.
    pub fn form_941_deposits(rows: &Vec<TaxLiability>) -> (r: Form941Deposits)
        requires
            deposits_fit(rows@),
        ensures
            r.federal_income_tax == sum(typed_shares(rows@, "federal_income"@, false)),
            r.social_security_employee == sum(typed_shares(rows@, "social_security"@, false)),
            r.social_security_employer == sum(typed_shares(rows@, "social_security"@, true)),
            r.medicare_employee == sum(typed_shares(rows@, "medicare"@, false)),
            r.medicare_employer == sum(typed_shares(rows@, "medicare"@, true)),
            r.total_deposits == sum(deposits(rows@)),
    {
        proof {
            reveal_strlit("federal_income");
            reveal_strlit("social_security");
            reveal_strlit("medicare");
        }
        let ghost rs = rows@;
        let ghost fi = typed_shares(rs, "federal_income"@, false);
        let ghost sse = typed_shares(rs, "social_security"@, false);
        let ghost ssr = typed_shares(rs, "social_security"@, true);
        let ghost me = typed_shares(rs, "medicare"@, false);
        let ghost mr = typed_shares(rs, "medicare"@, true);
        let ghost dep = deposits(rs);
        let mut f: i64 = 0;
        let mut s_e: i64 = 0;
        let mut s_r: i64 = 0;
        let mut m_e: i64 = 0;
        let mut m_r: i64 = 0;
        let mut total: i64 = 0;
        let mut i: usize = 0;
        while i < rows.len()
            invariant
                i <= rows.len(),
                rs == rows@,
                fi == typed_shares(rs, "federal_income"@, false),
                sse == typed_shares(rs, "social_security"@, false),
                ssr == typed_shares(rs, "social_security"@, true),
                me == typed_shares(rs, "medicare"@, false),
                mr == typed_shares(rs, "medicare"@, true),
                dep == deposits(rs),
                deposits_fit(rs),
                f == sum(fi.take(i as int)),
                s_e == sum(sse.take(i as int)),
                s_r == sum(ssr.take(i as int)),
                m_e == sum(me.take(i as int)),
                m_r == sum(mr.take(i as int)),
                total == sum(dep.take(i as int)),
            decreases rows.len() - i,
        {
            proof {
                reveal_strlit("federal_income");
                reveal_strlit("social_security");
                reveal_strlit("medicare");
                lemma_sum_take_succ(fi, i as int);
                lemma_sum_take_succ(sse, i as int);
                lemma_sum_take_succ(ssr, i as int);
                lemma_sum_take_succ(me, i as int);
                lemma_sum_take_succ(mr, i as int);
                lemma_sum_take_succ(dep, i as int);
                assert(i64::MIN <= sum(fi.take(i + 1)) <= i64::MAX);
                assert(i64::MIN <= sum(sse.take(i + 1)) <= i64::MAX);
                assert(i64::MIN <= sum(ssr.take(i + 1)) <= i64::MAX);
                assert(i64::MIN <= sum(me.take(i + 1)) <= i64::MAX);
                assert(i64::MIN <= sum(mr.take(i + 1)) <= i64::MAX);
                assert(i64::MIN <= sum(dep.take(i + 1)) <= i64::MAX);
                assert(i64::MIN <= rs[i as int].employee_amount + rs[i as int].employer_amount
                    <= i64::MAX);
            }
            let row = &rows[i];
            proof {
                assert("federal_income"@.len() != "social_security"@.len());
                assert("federal_income"@.len() != "medicare"@.len());
                assert("social_security"@.len() != "medicare"@.len());
            }
            if str_eq(row.tax_type.as_str(), "federal_income") {
                f = f + row.employee_amount;
            } else if str_eq(row.tax_type.as_str(), "social_security") {
                s_e = s_e + row.employee_amount;
                s_r = s_r + row.employer_amount;
            } else if str_eq(row.tax_type.as_str(), "medicare") {
                m_e = m_e + row.employee_amount;
                m_r = m_r + row.employer_amount;
            }
            total = total + (row.employee_amount + row.employer_amount);
            i = i + 1;
        }
        proof {
            lemma_take_full(fi);
            lemma_take_full(sse);
            lemma_take_full(ssr);
            lemma_take_full(me);
            lemma_take_full(mr);
            lemma_take_full(dep);
        }
        Form941Deposits {
            federal_income_tax: f,
            social_security_employee: s_e,
            social_security_employer: s_r,
            medicare_employee: m_e,
            medicare_employer: m_r,
            total_deposits: total,
        }
    }
}

/// The net of each tax rate.
pub open spec fn tax_nets(rs: Seq<TaxFigures>) -> Seq<int> {
    rs.map_values(|r: TaxFigures| r.tax_collected - r.tax_paid)
}

/// In the tax summary the overall net (collected less paid) is the sum of the rates' nets.
pub proof fn lemma_tax_net_is_sum_of_rate_nets(rs: Seq<TaxFigures>)
    ensures
        sum(tax_nets(rs)) == sum(collected(rs)) - sum(paid(rs)),
    decreases rs.len(),
{
    if rs.len() > 0 {
        lemma_tax_net_is_sum_of_rate_nets(rs.drop_last());
        assert(tax_nets(rs).drop_last() =~= tax_nets(rs.drop_last()));
        assert(collected(rs).drop_last() =~= collected(rs.drop_last()));
        assert(paid(rs).drop_last() =~= paid(rs.drop_last()));
    }
}

/// Each organization's net income.
pub open spec fn org_nets(orgs: Seq<(i64, i64)>) -> Seq<int> {
    orgs.map_values(|o: (i64, i64)| o.0 - o.1)
}

/// Consolidated net income (combined revenue less combined expenses) is the sum of the
/// organizations' net incomes.
pub proof fn lemma_consolidated_net_is_sum_of_org_nets(orgs: Seq<(i64, i64)>)
    ensures
        sum(org_nets(orgs)) == sum(orgs.map_values(|o: (i64, i64)| o.0 as int)) - sum(
            orgs.map_values(|o: (i64, i64)| o.1 as int),
        ),
    decreases orgs.len(),
{
    if orgs.len() > 0 {
        lemma_consolidated_net_is_sum_of_org_nets(orgs.drop_last());
        assert(org_nets(orgs).drop_last() =~= org_nets(orgs.drop_last()));
        let revs = orgs.map_values(|o: (i64, i64)| o.0 as int);
        let exps = orgs.map_values(|o: (i64, i64)| o.1 as int);
        assert(revs.drop_last() =~= orgs.drop_last().map_values(|o: (i64, i64)| o.0 as int));
        assert(exps.drop_last() =~= orgs.drop_last().map_values(|o: (i64, i64)| o.1 as int));
    }
}

/// Price lists and purchasing spend.
pub struct PriceListRepo;

impl PriceListRepo {
    /// The spend analysis total: the sum of the totals of its category-month rows.
    pub fn spend_total(row_totals: &Vec<i64>) -> (r: i64)
        requires
            prefix_sums_fit(ints(row_totals@)),
        ensures
            r == sum(ints(row_totals@)),
    {
        column_total(row_totals)
    }
}

} // verus!
