//! Profit and loss, balance sheet and trial balance from account totals, and the pieces
//! of global search.
use vstd::prelude::*;

use crate::reports::{account_type_of, AccountType, ReportRepo};
use crate::seqs::{lemma_sum_push, prefix_sums_fit, sum};
use crate::text::str_eq;

verus! {

/// An account's debit and credit totals.
pub struct AccountTotals {
    pub account_id: u128,
    pub account_code: String,
    pub account_name: String,
    pub account_type: String,
    pub total_debit: i64,
    pub total_credit: i64,
}

/// A line of a statement section.
pub struct StatementLine {
    pub account_id: u128,
    pub account_code: String,
    pub account_name: String,
    pub amount: i64,
}

/// A statement section and its total.
pub struct StatementSection {
    pub accounts: Vec<StatementLine>,
    pub total: i64,
}

/// Which accounts a section takes, and how it signs them.
#[derive(Debug, Clone, Copy, PartialEq, Eq, Structural)]
pub enum Selector {
    /// Revenue accounts, credit less debit.
    Revenue,
    /// Every other account of a profit-and-loss query, debit less credit.
    Expenses,
    /// Asset accounts, debit less credit.
    Assets,
    /// Liability accounts, credit less debit.
    Liabilities,
    /// Every other account of a balance-sheet query, credit less debit.
    Equity,
}

/// Whether a section takes an account of type `t`.
pub open spec fn selects(s: Selector, t: Seq<char>) -> bool {
    match s {
        Selector::Revenue => t == "revenue"@,
        Selector::Expenses => t != "revenue"@,
        Selector::Assets => t == "asset"@,
        Selector::Liabilities => t == "liability"@,
        Selector::Equity => t != "asset"@ && t != "liability"@,
    }
}

/// The amount a section shows for an account.
pub open spec fn section_amount(s: Selector, d: int, c: int) -> int {
    match s {
        Selector::Revenue => c - d,
        Selector::Expenses => d - c,
        Selector::Assets => d - c,
        Selector::Liabilities => c - d,
        Selector::Equity => c - d,
    }
}

/// The accounts a section takes, in order.
pub open spec fn selected(rows: Seq<AccountTotals>, s: Selector) -> Seq<AccountTotals>
    decreases rows.len(),
{
    if rows.len() == 0 {
        Seq::empty()
    } else {
        let rest = selected(rows.drop_last(), s);
        if selects(s, rows.last().account_type@) {
            rest.push(rows.last())
        } else {
            rest
        }
    }
}

/// Amounts a section shows.
pub open spec fn section_amounts(rows: Seq<AccountTotals>, s: Selector) -> Seq<int> {
    rows.map_values(
        |r: AccountTotals| section_amount(s, r.total_debit as int, r.total_credit as int),
    )
}

/// `sec` is section `s` of `rows`.
pub open spec fn section_ok(rows: Seq<AccountTotals>, s: Selector, sec: StatementSection) -> bool {
    let sel = selected(rows, s);
    &&& sec.accounts.len() == sel.len()
    &&& forall|i: int|
        0 <= i < sel.len() ==> (#[trigger] sec.accounts@[i]).account_id == sel[i].account_id
            && sec.accounts@[i].account_code@ == sel[i].account_code@
            && sec.accounts@[i].account_name@ == sel[i].account_name@ && sec.accounts@[i].amount
            == section_amount(s, sel[i].total_debit as int, sel[i].total_credit as int)
    &&& sec.total == sum(section_amounts(sel, s))
}

/// Each account's net movement can be taken either way round within 64 bits.
pub open spec fn amounts_fit(rows: Seq<AccountTotals>) -> bool {
    forall|i: int|
        0 <= i < rows.len() ==> i64::MIN < (#[trigger] rows[i]).total_debit - rows[i].total_credit
            < i64::MAX
}

/// Section `s`'s running total stays within 64 bits as its accounts are added in turn.
pub open spec fn section_fits(rows: Seq<AccountTotals>, s: Selector) -> bool {
    prefix_sums_fit(section_amounts(selected(rows, s), s))
}

/// Total of section `s`.
pub open spec fn section_total(rows: Seq<AccountTotals>, s: Selector) -> int {
    sum(section_amounts(selected(rows, s), s))
}

/// The accounts a section takes from a prefix of the accounts are a prefix of those it
/// takes from all of them.
proof fn lemma_selected_prefix(rows: Seq<AccountTotals>, s: Selector, j: int) -> (m: int)
    requires
        0 <= j <= rows.len(),
    ensures
        0 <= m <= selected(rows, s).len(),
        selected(rows, s).take(m) == selected(rows.take(j), s),
    decreases rows.len(),
{
    if j == rows.len() {
        assert(rows.take(j) =~= rows);
        assert(selected(rows, s).take(selected(rows, s).len() as int) =~= selected(rows, s));
        selected(rows, s).len() as int
    } else {
        let rest = rows.drop_last();
        assert(rows.take(j) =~= rest.take(j));
        let m = lemma_selected_prefix(rest, s, j);
        assert(selected(rows, s).take(m) =~= selected(rest, s).take(m));
        m
    }
}

fn selects_exec(s: Selector, t: &str) -> (r: bool)
    ensures
        r == selects(s, t@),
{
    match s {
        Selector::Revenue => str_eq(t, "revenue"),
        Selector::Expenses => !str_eq(t, "revenue"),
        Selector::Assets => str_eq(t, "asset"),
        Selector::Liabilities => str_eq(t, "liability"),
        Selector::Equity => !str_eq(t, "asset") && !str_eq(t, "liability"),
    }
}

/// Builds one section of a statement.
fn build_section(rows: &Vec<AccountTotals>, s: Selector) -> (r: StatementSection)
    requires
        amounts_fit(rows@),
        section_fits(rows@, s),
    ensures
        section_ok(rows@, s, r),
{
    let ghost all = rows@;
    let mut items: Vec<StatementLine> = Vec::new();
    let mut total: i64 = 0;
    let mut i: usize = 0;
    while i < rows.len()
        invariant
            i <= rows.len(),
            all == rows@,
            amounts_fit(all),
            section_fits(all, s),
            items.len() == selected(all.take(i as int), s).len(),
            forall|k: int|
                0 <= k < items.len() ==> {
                    let sel = selected(all.take(i as int), s);
                    &&& (#[trigger] items@[k]).account_id == sel[k].account_id
                    &&& items@[k].account_code@ == sel[k].account_code@
                    &&& items@[k].account_name@ == sel[k].account_name@
                    &&& items@[k].amount == section_amount(
                        s,
                        sel[k].total_debit as int,
                        sel[k].total_credit as int,
                    )
                },
            total == sum(section_amounts(selected(all.take(i as int), s), s)),
        decreases rows.len() - i,
    {
        let r = &rows[i];
        let ghost pre = all.take(i as int);
        let ghost post = all.take(i + 1);
        proof {
            assert(post.drop_last() =~= pre);
            let m = lemma_selected_prefix(all, s, i + 1);
            let sel = selected(all, s);
            assert(section_amounts(sel.take(m), s) =~= section_amounts(sel, s).take(m));
            assert(i64::MIN <= sum(section_amounts(sel, s).take(m)) <= i64::MAX);
        }
        if selects_exec(s, r.account_type.as_str()) {
            let amount = match s {
                Selector::Revenue | Selector::Liabilities | Selector::Equity => r.total_credit
                    - r.total_debit,
                _ => r.total_debit - r.total_credit,
            };
            proof {
                let x = selected(pre, s);
                let rv = all[i as int];
                assert(section_amounts(x.push(rv), s) =~= section_amounts(x, s).push(amount as int));
                lemma_sum_push(section_amounts(x, s), amount as int);
            }
            items.push(
                StatementLine {
                    account_id: r.account_id,
                    account_code: r.account_code.clone(),
                    account_name: r.account_name.clone(),
                    amount,
                },
            );
            total = total + amount;
        }
        i = i + 1;
    }
    proof {
        assert(all.take(rows.len() as int) =~= all);
    }
    StatementSection { accounts: items, total }
}

/// The profit-and-loss statement.
pub struct ProfitLossReport {
    pub revenue: StatementSection,
    pub expenses: StatementSection,
    pub net_income: i64,
}

/// The balance sheet.
pub struct BalanceSheetReport {
    pub assets: StatementSection,
    pub liabilities: StatementSection,
    pub equity: StatementSection,
    pub is_balanced: bool,
}

/// An account of the trial balance.
pub struct TrialBalanceLine {
    pub account_id: u128,
    pub account_type: AccountType,
    pub debit_total: i64,
    pub credit_total: i64,
}

/// The trial balance.
pub struct TrialBalance {
    pub accounts: Vec<TrialBalanceLine>,
    pub total_debits: i64,
    pub total_credits: i64,
}

/// Debit totals.
pub open spec fn debit_totals(rows: Seq<AccountTotals>) -> Seq<int> {
    rows.map_values(|r: AccountTotals| r.total_debit as int)
}

/// Credit totals.
pub open spec fn credit_totals(rows: Seq<AccountTotals>) -> Seq<int> {
    rows.map_values(|r: AccountTotals| r.total_credit as int)
}

impl ReportRepo {
    /// Profit and loss: revenue accounts (credit less debit) and all other accounts
    /// (debit less credit), with net income their difference.
    pub fn profit_loss(rows: &Vec<AccountTotals>) -> (r: ProfitLossReport)
        requires
            amounts_fit(rows@),
            section_fits(rows@, Selector::Revenue),
            section_fits(rows@, Selector::Expenses),
            i64::MIN <= section_total(rows@, Selector::Revenue) - section_total(
                rows@,
                Selector::Expenses,
            ) <= i64::MAX,
        ensures
            section_ok(rows@, Selector::Revenue, r.revenue),
            section_ok(rows@, Selector::Expenses, r.expenses),
            r.net_income == r.revenue.total - r.expenses.total,
    {
        let revenue = build_section(rows, Selector::Revenue);
        let expenses = build_section(rows, Selector::Expenses);
        let net_income = revenue.total - expenses.total;
        ProfitLossReport { revenue, expenses, net_income }
    }

    /// Balance sheet: assets (debit less credit), liabilities and the other accounts as
    /// equity (credit less debit); balanced when assets equal liabilities plus equity.
    pub fn balance_sheet(rows: &Vec<AccountTotals>) -> (r: BalanceSheetReport)
        requires
            amounts_fit(rows@),
            section_fits(rows@, Selector::Assets),
            section_fits(rows@, Selector::Liabilities),
            section_fits(rows@, Selector::Equity),
        ensures
            section_ok(rows@, Selector::Assets, r.assets),
            section_ok(rows@, Selector::Liabilities, r.liabilities),
            section_ok(rows@, Selector::Equity, r.equity),
            r.is_balanced == (r.assets.total == r.liabilities.total + r.equity.total),
    {
        let assets = build_section(rows, Selector::Assets);
        let liabilities = build_section(rows, Selector::Liabilities);
        let equity = build_section(rows, Selector::Equity);
        let is_balanced = assets.total as i128 == liabilities.total as i128 + equity.total as i128;
        BalanceSheetReport { assets, liabilities, equity, is_balanced }
    }

    /// Trial balance: every account with its type (an unknown type is refused, `None`)
    /// and totals, and the sums of all debits and credits.
    pub fn trial_balance(rows: &Vec<AccountTotals>) -> (r: Option<TrialBalance>)
        requires
            crate::seqs::prefix_sums_fit(debit_totals(rows@)),
            crate::seqs::prefix_sums_fit(credit_totals(rows@)),
        ensures
            (exists|i: int| 0 <= i < rows.len() && account_type_of((#[trigger] rows@[i]).account_type@) is None)
                ==> r is None,
            (forall|i: int| 0 <= i < rows.len() ==> account_type_of((#[trigger] rows@[i]).account_type@) is Some)
                ==> (r matches Some(tb) && tb.accounts.len() == rows.len() && (forall|i: int|
                0 <= i < rows.len() ==> (#[trigger] tb.accounts@[i]).account_id == rows@[i].account_id
                    && Some(tb.accounts@[i].account_type) == account_type_of(rows@[i].account_type@)
                    && tb.accounts@[i].debit_total == rows@[i].total_debit
                    && tb.accounts@[i].credit_total == rows@[i].total_credit) && tb.total_debits
                == sum(debit_totals(rows@)) && tb.total_credits == sum(credit_totals(rows@))),
    {
        let mut out: Vec<TrialBalanceLine> = Vec::new();
        let mut d: i64 = 0;
        let mut c: i64 = 0;
        let mut i: usize = 0;
        while i < rows.len()
            invariant
                i <= rows.len(),
                crate::seqs::prefix_sums_fit(debit_totals(rows@)),
                crate::seqs::prefix_sums_fit(credit_totals(rows@)),
                out.len() == i,
                forall|k: int|
                    0 <= k < i ==> (#[trigger] out@[k]).account_id == rows@[k].account_id && Some(
                        out@[k].account_type,
                    ) == account_type_of(rows@[k].account_type@) && out@[k].debit_total
                        == rows@[k].total_debit && out@[k].credit_total == rows@[k].total_credit,
                d == sum(debit_totals(rows@).take(i as int)),
                c == sum(credit_totals(rows@).take(i as int)),
            decreases rows.len() - i,
        {
            let r = &rows[i];
            let t = match AccountType::parse(r.account_type.as_str()) {
                Some(t) => t,
                None => return None,
            };
            proof {
                crate::seqs::lemma_sum_take_succ(debit_totals(rows@), i as int);
                crate::seqs::lemma_sum_take_succ(credit_totals(rows@), i as int);
                assert(i64::MIN <= sum(debit_totals(rows@).take(i + 1)) <= i64::MAX);
                assert(i64::MIN <= sum(credit_totals(rows@).take(i + 1)) <= i64::MAX);
            }
            out.push(
                TrialBalanceLine {
                    account_id: r.account_id,
                    account_type: t,
                    debit_total: r.total_debit,
                    credit_total: r.total_credit,
                },
            );
            d = d + r.total_debit;
            c = c + r.total_credit;
            i = i + 1;
        }
        proof {
            crate::seqs::lemma_take_full(debit_totals(rows@));
            crate::seqs::lemma_take_full(credit_totals(rows@));
            assert forall|k: int| 0 <= k < rows.len() implies account_type_of(
                (#[trigger] rows@[k]).account_type@,
            ) is Some by {
                assert(Some(out@[k].account_type) == account_type_of(rows@[k].account_type@));
            }
        }
        Some(TrialBalance { accounts: out, total_debits: d, total_credits: c })
    }
}

// ── search ─────────────────────────────────────────────────────────────────────

/// Kinds of records global search looks through.
#[derive(Debug, Clone, Copy, PartialEq, Eq, Structural)]
pub enum SearchKind {
    Contact,
    Invoice,
    Product,
    Account,
}

/// A search result.
pub struct SearchHit {
    pub id: u128,
    pub display: String,
    pub hit_type: &'static str,
}

/// The requested type names, as text.
pub open spec fn type_views(types: Seq<String>) -> Seq<Seq<char>> {
    types.map_values(|t: String| t@)
}

/// The kinds searched, in the fixed order contacts, invoices, products, accounts, each
/// when requested.
pub open spec fn search_kinds_spec(types: Seq<Seq<char>>) -> Seq<SearchKind> {
    let a = if types.contains("contacts"@) {
        seq![SearchKind::Contact]
    } else {
        Seq::empty()
    };
    let b = if types.contains("invoices"@) {
        seq![SearchKind::Invoice]
    } else {
        Seq::empty()
    };
    let c = if types.contains("products"@) {
        seq![SearchKind::Product]
    } else {
        Seq::empty()
    };
    let d = if types.contains("accounts"@) {
        seq![SearchKind::Account]
    } else {
        Seq::empty()
    };
    a + b + c + d
}

fn has_type(types: &Vec<String>, name: &str) -> (r: bool)
    ensures
        r == type_views(types@).contains(name@),
{
    let mut i: usize = 0;
    while i < types.len()
        invariant
            i <= types.len(),
            forall|k: int| 0 <= k < i ==> (#[trigger] types@[k])@ != name@,
        decreases types.len() - i,
    {
        if str_eq(types[i].as_str(), name) {
            proof {
                assert(type_views(types@)[i as int] == name@);
            }
            return true;
        }
        i = i + 1;
    }
    proof {
        if type_views(types@).contains(name@) {
            let k = choose|k: int| 0 <= k < type_views(types@).len() && type_views(types@)[k] == name@;
            assert(types@[k]@ == name@);
        }
    }
    false
}

impl ReportRepo {
    /// The kinds a search looks through, in order.
    pub fn search_kinds(types: &Vec<String>) -> (r: Vec<SearchKind>)
        ensures
            r@ == search_kinds_spec(type_views(types@)),
    {
        let mut out: Vec<SearchKind> = Vec::new();
        if has_type(types, "contacts") {
            out.push(SearchKind::Contact);
        }
        let ghost a = out@;
        if has_type(types, "invoices") {
            out.push(SearchKind::Invoice);
        }
        let ghost b = out@;
        if has_type(types, "products") {
            out.push(SearchKind::Product);
        }
        let ghost c = out@;
        if has_type(types, "accounts") {
            out.push(SearchKind::Account);
        }
        proof {
            let t = type_views(types@);
            assert(out@ =~= search_kinds_spec(t));
        }
        out
    }

    /// The `ILIKE` pattern of a query: the query anywhere in the text.
    pub fn search_pattern(query: &str) -> (r: String)
        ensures
            r@ == "%"@ + query@ + "%"@,
    {
        let mut s = String::from_str("%");
        s.append(query);
        s.append("%");
        s
    }

    /// A search result: accounts show `code – name`, other records their name or number.
    pub fn search_hit(kind: SearchKind, id: u128, text: &str, code: &str) -> (r: SearchHit)
        ensures
            r.id == id,
            kind == SearchKind::Account ==> r.display@ == code@ + " – "@ + text@,
            kind != SearchKind::Account ==> r.display@ == text@,
            r.hit_type@ == match kind {
                SearchKind::Contact => "contact"@,
                SearchKind::Invoice => "invoice"@,
                SearchKind::Product => "product"@,
                SearchKind::Account => "account"@,
            },
    {
        let hit_type: &'static str = match kind {
            SearchKind::Contact => "contact",
            SearchKind::Invoice => "invoice",
            SearchKind::Product => "product",
            SearchKind::Account => "account",
        };
        let display = match kind {
            SearchKind::Account => {
                let mut s = String::from_str(code);
                s.append(" – ");
                s.append(text);
                s
            },
            _ => String::from_str(text),
        };
        SearchHit { id, display, hit_type }
    }
}

} // verus!
