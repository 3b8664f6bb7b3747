//! Financial reports built from ledger, receivable and payroll figures: account ledgers
//! and contact statements with running balances, and the cash-flow statement.
use vstd::prelude::*;

use crate::dates::CalDate;
use crate::seqs::{lemma_sum_take_succ, lemma_take_full, prefix_sums_fit, sum};
use crate::text::str_eq;

verus! {

/// Kinds of ledger accounts.
#[derive(Debug, Clone, Copy, PartialEq, Eq, Structural)]
pub enum AccountType {
    Asset,
    Liability,
    Equity,
    Revenue,
    Expense,
}

/// The account type a stored name denotes, if any.
pub open spec fn account_type_of(s: Seq<char>) -> Option<AccountType> {
    if s == "asset"@ {
        Some(AccountType::Asset)
    } else if s == "liability"@ {
        Some(AccountType::Liability)
    } else if s == "equity"@ {
        Some(AccountType::Equity)
    } else if s == "revenue"@ {
        Some(AccountType::Revenue)
    } else if s == "expense"@ {
        Some(AccountType::Expense)
    } else {
        None
    }
}

/// Assets and expenses increase with debits; the other types with credits.
pub open spec fn debit_normal(t: AccountType) -> bool {
    t == AccountType::Asset || t == AccountType::Expense
}

impl AccountType {
    /// Reads a stored account type.
    pub fn parse(s: &str) -> (r: Option<AccountType>)
        ensures
            r == account_type_of(s@),
    {
        if str_eq(s, "asset") {
            Some(AccountType::Asset)
        } else if str_eq(s, "liability") {
            Some(AccountType::Liability)
        } else if str_eq(s, "equity") {
            Some(AccountType::Equity)
        } else if str_eq(s, "revenue") {
            Some(AccountType::Revenue)
        } else if str_eq(s, "expense") {
            Some(AccountType::Expense)
        } else {
            None
        }
    }

    /// Whether the type's balance grows with debits.
    pub fn is_debit_normal(&self) -> (r: bool)
        ensures
            r == debit_normal(*self),
    {
        match self {
            AccountType::Asset | AccountType::Expense => true,
            _ => false,
        }
    }
}

/// The movement of a line on an account's balance: debit less credit for debit-normal
/// accounts, credit less debit otherwise.
pub open spec fn movement(debit_normal: bool, debit: int, credit: int) -> int {
    if debit_normal {
        debit - credit
    } else {
        credit - debit
    }
}

/// A posted line on an account, or an event on a statement.
pub struct LedgerEntry {
    pub reference_id: u128,
    pub date: CalDate,
    pub description: String,
    pub reference: Option<String>,
    pub debit: i64,
    pub credit: i64,
}

/// A line of a ledger or statement with the balance after it.
pub struct BalanceLine {
    pub reference_id: u128,
    pub date: CalDate,
    pub description: String,
    pub reference: Option<String>,
    pub debit: i64,
    pub credit: i64,
    pub running_balance: i64,
}

/// Movements of entries.
pub open spec fn movements(dn: bool, es: Seq<LedgerEntry>) -> Seq<int> {
    es.map_values(|e: LedgerEntry| movement(dn, e.debit as int, e.credit as int))
}

/// Running balances never overflow.
pub open spec fn running_fits(opening: int, dn: bool, es: Seq<LedgerEntry>) -> bool {
    &&& forall|i: int|
        0 <= i < es.len() ==> i64::MIN <= movement(
            dn,
            (#[trigger] es[i]).debit as int,
            es[i].credit as int,
        ) <= i64::MAX
    &&& forall|i: int|
        0 <= i <= es.len() ==> i64::MIN <= opening + #[trigger] sum(movements(dn, es).take(i))
            <= i64::MAX
}

/// `lines` show `es` with the balance after each: the opening balance plus the movements
/// so far.
pub open spec fn running_lines_ok(
    opening: int,
    dn: bool,
    es: Seq<LedgerEntry>,
    lines: Seq<BalanceLine>,
) -> bool {
    &&& lines.len() == es.len()
    &&& forall|i: int|
        0 <= i < es.len() ==> {
            let l = #[trigger] lines[i];
            &&& l.reference_id == es[i].reference_id
            &&& l.date == es[i].date
            &&& l.description@ == es[i].description@
            &&& l.reference == es[i].reference
            &&& l.debit == es[i].debit
            &&& l.credit == es[i].credit
            &&& l.running_balance == opening + sum(movements(dn, es).take(i + 1))
        }
}

fn clone_opt_string(s: &Option<String>) -> (r: Option<String>)
    ensures
        r == *s,
{
    match s {
        Some(x) => Some(x.clone()),
        None => None,
    }
}

/// Lists entries with running balances from `opening`; returns the lines and the closing
/// balance.
fn running_balances(opening: i64, dn: bool, es: &Vec<LedgerEntry>) -> (r: (Vec<BalanceLine>, i64))
    requires
        running_fits(opening as int, dn, es@),
    ensures
        running_lines_ok(opening as int, dn, es@, r.0@),
        r.1 == opening + sum(movements(dn, es@)),
{
    let ghost ms = movements(dn, es@);
    let mut out: Vec<BalanceLine> = Vec::new();
    let mut running: i64 = opening;
    let mut i: usize = 0;
    while i < es.len()
        invariant
            i <= es.len(),
            ms == movements(dn, es@),
            running_fits(opening as int, dn, es@),
            out.len() == i,
            running == opening + sum(ms.take(i as int)),
            forall|k: int|
                0 <= k < i ==> {
                    let l = #[trigger] out@[k];
                    &&& l.reference_id == es@[k].reference_id
                    &&& l.date == es@[k].date
                    &&& l.description@ == es@[k].description@
                    &&& l.reference == es@[k].reference
                    &&& l.debit == es@[k].debit
                    &&& l.credit == es@[k].credit
                    &&& l.running_balance == opening + sum(ms.take(k + 1))
                },
        decreases es.len() - i,
    {
        let e = &es[i];
        proof {
            lemma_sum_take_succ(ms, i as int);
            assert(i64::MIN <= opening + sum(ms.take(i + 1)) <= i64::MAX);
            assert(i64::MIN <= movement(dn, es@[i as int].debit as int, es@[i as int].credit as int)
                <= i64::MAX);
        }
        let m = if dn {
            e.debit - e.credit
        } else {
            e.credit - e.debit
        };
        running = running + m;
        out.push(
            BalanceLine {
                reference_id: e.reference_id,
                date: e.date,
                description: e.description.clone(),
                reference: clone_opt_string(&e.reference),
                debit: e.debit,
                credit: e.credit,
                running_balance: running,
            },
        );
        i = i + 1;
    }
    proof {
        lemma_take_full(ms);
    }
    (out, running)
}

/// An account's ledger over a period.
pub struct AccountLedger {
    pub account_type: AccountType,
    pub opening_balance: i64,
    pub lines: Vec<BalanceLine>,
    pub closing_balance: i64,
}

/// A contact's statement over a period.
pub struct ContactStatement {
    pub opening_balance: i64,
    pub lines: Vec<BalanceLine>,
    pub closing_balance: i64,
}

/// Financial and operational reports.
pub struct ReportRepo;

impl ReportRepo {
    /// An account's ledger: the opening balance from the debits and credits before the
    /// period (signed by the account's normal side; unknown types count as assets), then
    /// each posted line in the period with the balance after it.
    pub fn account_ledger(
        account_type: &str,
        opening_debits: i64,
        opening_credits: i64,
        entries: &Vec<LedgerEntry>,
    ) -> (r: AccountLedger)
        requires
            ({
                let t = match account_type_of(account_type@) {
                    Some(t) => t,
                    None => AccountType::Asset,
                };
                let opening = movement(debit_normal(t), opening_debits as int, opening_credits as int);
                i64::MIN <= opening <= i64::MAX && running_fits(opening, debit_normal(t), entries@)
            }),
        ensures
            r.account_type == match account_type_of(account_type@) {
                Some(t) => t,
                None => AccountType::Asset,
            },
            r.opening_balance == movement(
                debit_normal(r.account_type),
                opening_debits as int,
                opening_credits as int,
            ),
            running_lines_ok(
                r.opening_balance as int,
                debit_normal(r.account_type),
                entries@,
                r.lines@,
            ),
            r.closing_balance == r.opening_balance + sum(
                movements(debit_normal(r.account_type), entries@),
            ),
    {
        let t = match AccountType::parse(account_type) {
            Some(t) => t,
            None => AccountType::Asset,
        };
        let dn = t.is_debit_normal();
        let opening = if dn {
            opening_debits - opening_credits
        } else {
            opening_credits - opening_debits
        };
        let (lines, closing) = running_balances(opening, dn, entries);
        AccountLedger { account_type: t, opening_balance: opening, lines, closing_balance: closing }
    }

    /// A contact's statement: the opening balance (invoiced less paid before the period),
    /// then each invoice (debit) and payment (credit) in the period with the balance after
    /// it.
    pub fn contact_statement(invoiced_before: i64, paid_before: i64, events: &Vec<LedgerEntry>) -> (r:
        ContactStatement)
        requires
            i64::MIN <= invoiced_before - paid_before <= i64::MAX,
            running_fits(invoiced_before - paid_before, true, events@),
        ensures
            r.opening_balance == invoiced_before - paid_before,
            running_lines_ok(r.opening_balance as int, true, events@, r.lines@),
            r.closing_balance == r.opening_balance + sum(movements(true, events@)),
    {
        let opening = invoiced_before - paid_before;
        let (lines, closing) = running_balances(opening, true, events);
        ContactStatement { opening_balance: opening, lines, closing_balance: closing }
    }
}

/// Each running balance is the previous one moved by its line, and the closing balance is
/// the last running balance (or the opening balance when there are no lines).
pub proof fn lemma_running_balance_steps(
    opening: int,
    dn: bool,
    es: Seq<LedgerEntry>,
    lines: Seq<BalanceLine>,
    closing: int,
)
    requires
        running_lines_ok(opening, dn, es, lines),
        closing == opening + sum(movements(dn, es)),
    ensures
        lines.len() > 0 ==> lines[0].running_balance == opening + movement(
            dn,
            es[0].debit as int,
            es[0].credit as int,
        ),
        forall|i: int|
            0 < i < lines.len() ==> (#[trigger] lines[i]).running_balance == lines[i
                - 1].running_balance + movement(dn, es[i].debit as int, es[i].credit as int),
        lines.len() == 0 ==> closing == opening,
        lines.len() > 0 ==> closing == lines[lines.len() - 1].running_balance,
{
    let ms = movements(dn, es);
    if lines.len() > 0 {
        lemma_sum_take_succ(ms, 0);
        assert(ms.take(0) =~= Seq::<int>::empty());
        assert(ms.take(lines.len() as int) =~= ms);
    } else {
        assert(ms =~= Seq::<int>::empty());
    }
    assert forall|i: int| 0 < i < lines.len() implies (#[trigger] lines[i]).running_balance
        == lines[i - 1].running_balance + movement(dn, es[i].debit as int, es[i].credit as int) by {
        lemma_sum_take_succ(ms, i);
    }
}

} // verus!
