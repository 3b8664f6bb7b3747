//! Payroll runs: totals of their entries, the workflow checks and the journal entry that
//! books a run.
use vstd::prelude::*;

use crate::error::{refuse, status_refusal, Conflict, DbError};
use crate::ledger::{balanced, credits, debits, is_credit_line, is_debit_line, memo_is, JournalLine};
use crate::seqs::{prefix_sums_fit, sum};
use crate::text::{short_reference, str_eq};

verus! {

/// One employee's pay in a run.
pub struct PayEntry {
    pub gross_pay: i64,
    pub tax_withheld: i64,
    pub net_pay: i64,
}

/// Gross pay of entries.
pub open spec fn gross_of(es: Seq<PayEntry>) -> Seq<int> {
    es.map_values(|e: PayEntry| e.gross_pay as int)
}

/// Tax withheld of entries.
pub open spec fn tax_of(es: Seq<PayEntry>) -> Seq<int> {
    es.map_values(|e: PayEntry| e.tax_withheld as int)
}

/// Net pay of entries.
pub open spec fn net_of(es: Seq<PayEntry>) -> Seq<int> {
    es.map_values(|e: PayEntry| e.net_pay as int)
}

/// Totals of a run.
pub struct RunTotals {
    pub total_gross: i64,
    pub total_tax: i64,
    pub total_net: i64,
}

/// The accounts a run is booked to.
pub struct PayrollAccounts {
    pub wages_account_id: String,
    pub tax_account_id: String,
    pub cash_account_id: String,
    pub deductions_account_id: Option<String>,
}

/// Other deductions: gross less tax less net.
pub open spec fn deductions_of(t: RunTotals) -> int {
    t.total_gross - t.total_tax - t.total_net
}

/// The lines booking a run: gross wages debited, tax, net pay and (when positive) other
/// deductions credited; deductions go to the deductions account, or the tax account when
/// there is none.
pub open spec fn payroll_lines_ok(t: RunTotals, a: PayrollAccounts, lines: Seq<JournalLine>) -> bool {
    let d = deductions_of(t);
    let ded_account = match a.deductions_account_id {
        Some(x) => x@,
        None => a.tax_account_id@,
    };
    &&& lines.len() == if d > 0 {
        4int
    } else {
        3int
    }
    &&& is_debit_line(lines[0], a.wages_account_id@, t.total_gross as int)
    &&& is_credit_line(lines[1], a.tax_account_id@, t.total_tax as int)
    &&& is_credit_line(lines[2], a.cash_account_id@, t.total_net as int)
    &&& d > 0 ==> is_credit_line(lines[3], ded_account, d)
    &&& memo_is(lines[0].description, "Gross wages"@)
    &&& memo_is(lines[1].description, "Payroll tax withheld"@)
    &&& memo_is(lines[2].description, "Net pay disbursed"@)
    &&& d > 0 ==> memo_is(lines[3].description, "Other payroll deductions"@)
}

/// Payroll runs.
pub struct PayrollRepo;

impl PayrollRepo {
    /// Totals of a run's entries.
    pub fn totals(entries: &Vec<PayEntry>) -> (r: RunTotals)
        requires
            prefix_sums_fit(gross_of(entries@)),
            prefix_sums_fit(tax_of(entries@)),
            prefix_sums_fit(net_of(entries@)),
        ensures
            r.total_gross == sum(gross_of(entries@)),
            r.total_tax == sum(tax_of(entries@)),
            r.total_net == sum(net_of(entries@)),
    {
        let ghost es = entries@;
        let mut g: i64 = 0;
        let mut t: i64 = 0;
        let mut n: i64 = 0;
        let mut i: usize = 0;
        while i < entries.len()
            invariant
                i <= entries.len(),
                es == entries@,
                prefix_sums_fit(gross_of(es)),
                prefix_sums_fit(tax_of(es)),
                prefix_sums_fit(net_of(es)),
                g == sum(gross_of(es).take(i as int)),
                t == sum(tax_of(es).take(i as int)),
                n == sum(net_of(es).take(i as int)),
            decreases entries.len() - i,
        {
            proof {
                crate::seqs::lemma_sum_take_succ(gross_of(es), i as int);
                crate::seqs::lemma_sum_take_succ(tax_of(es), i as int);
                crate::seqs::lemma_sum_take_succ(net_of(es), i as int);
                assert(i64::MIN <= sum(gross_of(es).take(i + 1)) <= i64::MAX);
                assert(i64::MIN <= sum(tax_of(es).take(i + 1)) <= i64::MAX);
                assert(i64::MIN <= sum(net_of(es).take(i + 1)) <= i64::MAX);
            }
            g = g + entries[i].gross_pay;
            t = t + entries[i].tax_withheld;
            n = n + entries[i].net_pay;
            i = i + 1;
        }
        proof {
            crate::seqs::lemma_take_full(gross_of(es));
            crate::seqs::lemma_take_full(tax_of(es));
            crate::seqs::lemma_take_full(net_of(es));
        }
        RunTotals { total_gross: g, total_tax: t, total_net: n }
    }

    /// Entries can only be added to a draft run.
    pub fn check_add_entry(status: &str) -> (r: Result<(), DbError>)
        ensures
            r is Ok <==> status@ == "draft"@,
            r matches Err(e) ==> status_refusal(e, "can only add entries to a draft payroll run"@),
    {
        if str_eq(status, "draft") {
            Ok(())
        } else {
            Err(refuse("can only add entries to a draft payroll run"))
        }
    }

    /// The journal entry booking a run. A run already booked is left as it is (`None`);
    /// otherwise it must be approved or paid and have some gross pay.
    pub fn plan_journal(
        already_posted: bool,
        status: &str,
        t: RunTotals,
        a: &PayrollAccounts,
    ) -> (r: Result<Option<Vec<JournalLine>>, DbError>)
        requires
            !already_posted && (status@ == "paid"@ || status@ == "approved"@) && t.total_gross != 0
                ==> i64::MIN <= t.total_gross - t.total_tax <= i64::MAX && i64::MIN
                <= deductions_of(t) <= i64::MAX,
        ensures
            already_posted ==> r == Ok::<Option<Vec<JournalLine>>, DbError>(None),
            !already_posted && status@ != "paid"@ && status@ != "approved"@ ==> (r matches Err(e)
                && status_refusal(
                e,
                "payroll run must be approved or paid before posting journal"@,
            )),
            !already_posted && (status@ == "paid"@ || status@ == "approved"@) && t.total_gross
                == 0 ==> r == Err::<Option<Vec<JournalLine>>, DbError>(
                DbError::Conflict(Conflict::NoPayrollEntries),
            ),
            !already_posted && (status@ == "paid"@ || status@ == "approved"@) && t.total_gross
                != 0 ==> (r matches Ok(Some(lines)) && payroll_lines_ok(t, *a, lines@)),
    {
        if already_posted {
            return Ok(None);
        }
        if !str_eq(status, "paid") && !str_eq(status, "approved") {
            return Err(refuse("payroll run must be approved or paid before posting journal"));
        }
        if t.total_gross == 0 {
            return Err(DbError::Conflict(Conflict::NoPayrollEntries));
        }
        let mut lines: Vec<JournalLine> = Vec::new();
        lines.push(
            JournalLine {
                account_id: a.wages_account_id.clone(),
                description: Some(String::from_str("Gross wages")),
                debit: t.total_gross,
                credit: 0,
            },
        );
        lines.push(
            JournalLine {
                account_id: a.tax_account_id.clone(),
                description: Some(String::from_str("Payroll tax withheld")),
                debit: 0,
                credit: t.total_tax,
            },
        );
        lines.push(
            JournalLine {
                account_id: a.cash_account_id.clone(),
                description: Some(String::from_str("Net pay disbursed")),
                debit: 0,
                credit: t.total_net,
            },
        );
        let deductions = t.total_gross - t.total_tax - t.total_net;
        if deductions > 0 {
            let acct = match &a.deductions_account_id {
                Some(x) => x.clone(),
                None => a.tax_account_id.clone(),
            };
            lines.push(
                JournalLine {
                    account_id: acct,
                    description: Some(String::from_str("Other payroll deductions")),
                    debit: 0,
                    credit: deductions,
                },
            );
        }
        Ok(Some(lines))
    }

    /// The reference of a run's journal entry: `PAYROLL-` and the first eight characters
    /// of the run's id.
    pub fn journal_reference(run_id: &str) -> (r: String)
        requires
            run_id@.len() >= 8,
        ensures
            r@ == "PAYROLL-"@ + run_id@.subrange(0, 8),
    {
        short_reference("PAYROLL-", run_id)
    }
}

/// The entry booking a run balances whenever tax and net pay do not exceed gross pay:
/// the credits (tax, net pay, other deductions) add up to the gross wages debited.
pub proof fn lemma_payroll_entry_balanced(
    t: RunTotals,
    a: PayrollAccounts,
    lines: Seq<JournalLine>,
)
    requires
        payroll_lines_ok(t, a, lines),
        deductions_of(t) >= 0,
    ensures
        balanced(lines),
{
    let d = debits(lines);
    let c = credits(lines);
    reveal_with_fuel(sum, 5);
    if deductions_of(t) > 0 {
        assert(d =~= seq![lines[0].debit as int, 0, 0, 0]);
        assert(c =~= seq![0, lines[1].credit as int, lines[2].credit as int, lines[3].credit as int]);
    } else {
        assert(d =~= seq![lines[0].debit as int, 0, 0]);
        assert(c =~= seq![0, lines[1].credit as int, lines[2].credit as int]);
    }
}

} // verus!
