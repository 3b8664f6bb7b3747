//! The cash-flow statement: each account's net movement classified into operating,
//! investing and financing activity.
use vstd::prelude::*;

use crate::reports::ReportRepo;
use crate::seqs::{abs_sum, lemma_sum_push, prefix_sums_fit, sum};
use crate::text::str_eq;

verus! {

/// An account's net debit-less-credit movement over the period.
pub struct AccountNet {
    pub account_id: u128,
    pub account_code: String,
    pub account_name: String,
    pub account_type: String,
    pub net: i64,
}

/// A line of a cash-flow section.
pub struct CashLine {
    pub account_id: u128,
    pub account_code: String,
    pub account_name: String,
    pub amount: i64,
}

/// A section of the statement and its total.
pub struct CashSection {
    pub items: Vec<CashLine>,
    pub total: i64,
}

/// The cash-flow statement.
pub struct CashFlowReport {
    pub operating: CashSection,
    pub investing: CashSection,
    pub financing: CashSection,
    pub net_change: i64,
    pub opening_cash: i64,
    pub closing_cash: i64,
}

/// Sections of the statement.
#[derive(Debug, Clone, Copy, PartialEq, Eq, Structural)]
pub enum CashSectionKind {
    Operating,
    Investing,
    Financing,
}

/// The cash effect of an account's net debit-less-credit movement: its negation for
/// every account type (a credit brings cash in, a debit takes it out, so the operating
/// lines add up to net income); accounts of no known type count nothing.
pub open spec fn cash_amount(account_type: Seq<char>, net: int) -> int {
    if account_type == "revenue"@ || account_type == "expense"@ || account_type == "asset"@
        || account_type == "liability"@ || account_type == "equity"@ {
        -net
    } else {
        0
    }
}

/// The section an account's line goes to.
pub open spec fn cash_section(account_type: Seq<char>) -> CashSectionKind {
    if account_type == "revenue"@ || account_type == "expense"@ {
        CashSectionKind::Operating
    } else if account_type == "asset"@ {
        CashSectionKind::Investing
    } else {
        CashSectionKind::Financing
    }
}

/// The accounts with a non-zero cash effect in section `k`, in order.
pub open spec fn section_rows(rows: Seq<AccountNet>, k: CashSectionKind) -> Seq<AccountNet>
    decreases rows.len(),
{
    if rows.len() == 0 {
        Seq::empty()
    } else {
        let rest = section_rows(rows.drop_last(), k);
        let r = rows.last();
        if cash_amount(r.account_type@, r.net as int) != 0 && cash_section(r.account_type@) == k {
            rest.push(r)
        } else {
            rest
        }
    }
}

/// Cash effects of accounts.
pub open spec fn cash_amounts(rows: Seq<AccountNet>) -> Seq<int> {
    rows.map_values(|r: AccountNet| cash_amount(r.account_type@, r.net as int))
}

/// `items` are the lines of `rows`, each with its cash effect.
pub open spec fn section_lines_ok(rows: Seq<AccountNet>, items: Seq<CashLine>) -> bool {
    &&& items.len() == rows.len()
    &&& forall|i: int|
        0 <= i < rows.len() ==> (#[trigger] items[i]).account_id == rows[i].account_id
            && items[i].account_code@ == rows[i].account_code@ && items[i].account_name@
            == rows[i].account_name@ && items[i].amount == cash_amount(
            rows[i].account_type@,
            rows[i].net as int,
        )
}

/// Total cash effect of section `k`.
pub open spec fn section_total(rows: Seq<AccountNet>, k: CashSectionKind) -> int {
    sum(cash_amounts(section_rows(rows, k)))
}

/// Every sum the statement computes stays within 64 bits: each net can be negated, each
/// section's running total fits, and so do the net change (added up section by section)
/// and the closing cash.
pub open spec fn cash_flow_fits(rows: Seq<AccountNet>, opening_cash: int) -> bool {
    let op = section_total(rows, CashSectionKind::Operating);
    let inv = section_total(rows, CashSectionKind::Investing);
    let fin = section_total(rows, CashSectionKind::Financing);
    &&& forall|i: int| 0 <= i < rows.len() ==> (#[trigger] rows[i]).net > i64::MIN
    &&& prefix_sums_fit(cash_amounts(section_rows(rows, CashSectionKind::Operating)))
    &&& prefix_sums_fit(cash_amounts(section_rows(rows, CashSectionKind::Investing)))
    &&& prefix_sums_fit(cash_amounts(section_rows(rows, CashSectionKind::Financing)))
    &&& i64::MIN <= op + inv <= i64::MAX
    &&& i64::MIN <= op + inv + fin <= i64::MAX
    &&& i64::MIN <= opening_cash + op + inv + fin <= i64::MAX
}

fn cash_effect(account_type: &str, net: i64) -> (r: (i64, CashSectionKind))
    requires
        net > i64::MIN,
    ensures
        r.0 == cash_amount(account_type@, net as int),
        r.1 == cash_section(account_type@),
{
    let rev = str_eq(account_type, "revenue");
    let exp = str_eq(account_type, "expense");
    let asset = str_eq(account_type, "asset");
    let amount = if rev || exp || asset || str_eq(account_type, "liability") || str_eq(
        account_type,
        "equity",
    ) {
        -net
    } else {
        0
    };
    let section = if rev || exp {
        CashSectionKind::Operating
    } else if asset {
        CashSectionKind::Investing
    } else {
        CashSectionKind::Financing
    };
    (amount, section)
}

/// The section lines of a prefix of the accounts are a prefix of the section's lines.
proof fn lemma_section_prefix(all: Seq<AccountNet>, j: int, k: CashSectionKind) -> (m: int)
    requires
        0 <= j <= all.len(),
    ensures
        0 <= m <= section_rows(all, k).len(),
        section_rows(all, k).take(m) == section_rows(all.take(j), k),
    decreases all.len(),
{
    if j == all.len() {
        assert(all.take(j) =~= all);
        assert(section_rows(all, k).take(section_rows(all, k).len() as int) =~= section_rows(all, k));
        section_rows(all, k).len() as int
    } else {
        let rest = all.drop_last();
        assert(all.take(j) =~= rest.take(j));
        let m = lemma_section_prefix(rest, j, k);
        assert(section_rows(all, k).take(m) =~= section_rows(rest, k).take(m));
        m
    }
}

/// A running section total fits whenever the section's prefix sums do.
proof fn lemma_section_running_fits(all: Seq<AccountNet>, j: int, k: CashSectionKind)
    requires
        0 <= j <= all.len(),
        prefix_sums_fit(cash_amounts(section_rows(all, k))),
    ensures
        i64::MIN <= sum(cash_amounts(section_rows(all.take(j), k))) <= i64::MAX,
{
    let m = lemma_section_prefix(all, j, k);
    let s = section_rows(all, k);
    assert(cash_amounts(s.take(m)) =~= cash_amounts(s).take(m));
    assert(i64::MIN <= sum(cash_amounts(s).take(m)) <= i64::MAX);
}

impl ReportRepo {
    /// The cash-flow statement: each account with a non-zero cash effect goes to its
    /// section (revenue and expense accounts to operating, assets to investing, the rest
    /// to financing); the net change is the sum of the section totals and the closing
    /// cash the opening cash plus the net change.
    pub fn cash_flow(rows: &Vec<AccountNet>, opening_cash: i64) -> (r: CashFlowReport)
        requires
            cash_flow_fits(rows@, opening_cash as int),
        ensures
            section_lines_ok(section_rows(rows@, CashSectionKind::Operating), r.operating.items@),
            section_lines_ok(section_rows(rows@, CashSectionKind::Investing), r.investing.items@),
            section_lines_ok(section_rows(rows@, CashSectionKind::Financing), r.financing.items@),
            r.operating.total == sum(
                cash_amounts(section_rows(rows@, CashSectionKind::Operating)),
            ),
            r.investing.total == sum(
                cash_amounts(section_rows(rows@, CashSectionKind::Investing)),
            ),
            r.financing.total == sum(
                cash_amounts(section_rows(rows@, CashSectionKind::Financing)),
            ),
            r.net_change == r.operating.total + r.investing.total + r.financing.total,
            r.opening_cash == opening_cash,
            r.closing_cash == r.opening_cash + r.net_change,
    {
        let ghost all = rows@;
        let mut op: Vec<CashLine> = Vec::new();
        let mut inv: Vec<CashLine> = Vec::new();
        let mut fin: Vec<CashLine> = Vec::new();
        let mut op_t: i64 = 0;
        let mut inv_t: i64 = 0;
        let mut fin_t: i64 = 0;
        let mut i: usize = 0;
        while i < rows.len()
            invariant
                i <= rows.len(),
                all == rows@,
                cash_flow_fits(all, opening_cash as int),
                section_lines_ok(section_rows(all.take(i as int), CashSectionKind::Operating), op@),
                section_lines_ok(section_rows(all.take(i as int), CashSectionKind::Investing), inv@),
                section_lines_ok(section_rows(all.take(i as int), CashSectionKind::Financing), fin@),
                op_t == sum(cash_amounts(section_rows(all.take(i as int), CashSectionKind::Operating))),
                inv_t == sum(cash_amounts(section_rows(all.take(i as int), CashSectionKind::Investing))),
                fin_t == sum(cash_amounts(section_rows(all.take(i as int), CashSectionKind::Financing))),
            decreases rows.len() - i,
        {
            let r = &rows[i];
            let ghost pre = all.take(i as int);
            let ghost post = all.take(i + 1);
            proof {
                assert(post.drop_last() =~= pre);
                lemma_section_running_fits(all, i + 1, CashSectionKind::Operating);
                lemma_section_running_fits(all, i + 1, CashSectionKind::Investing);
                lemma_section_running_fits(all, i + 1, CashSectionKind::Financing);
            }
            let (amount, section) = cash_effect(r.account_type.as_str(), r.net);
            if amount != 0 {
                let line = CashLine {
                    account_id: r.account_id,
                    account_code: r.account_code.clone(),
                    account_name: r.account_name.clone(),
                    amount,
                };
                let ghost rv = all[i as int];
                match section {
                    CashSectionKind::Operating => {
                        proof {
                            let s = section_rows(pre, CashSectionKind::Operating);
                            assert(cash_amounts(s.push(rv)) =~= cash_amounts(s).push(amount as int));
                            lemma_sum_push(cash_amounts(s), amount as int);
                        }
                        op.push(line);
                        op_t = op_t + amount;
                    },
                    CashSectionKind::Investing => {
                        proof {
                            let s = section_rows(pre, CashSectionKind::Investing);
                            assert(cash_amounts(s.push(rv)) =~= cash_amounts(s).push(amount as int));
                            lemma_sum_push(cash_amounts(s), amount as int);
                        }
                        inv.push(line);
                        inv_t = inv_t + amount;
                    },
                    CashSectionKind::Financing => {
                        proof {
                            let s = section_rows(pre, CashSectionKind::Financing);
                            assert(cash_amounts(s.push(rv)) =~= cash_amounts(s).push(amount as int));
                            lemma_sum_push(cash_amounts(s), amount as int);
                        }
                        fin.push(line);
                        fin_t = fin_t + amount;
                    },
                }
            }
            i = i + 1;
        }
        proof {
            assert(all.take(rows.len() as int) =~= all);
            lemma_sections_partition(all);
        }
        let net_change = op_t + inv_t + fin_t;
        CashFlowReport {
            operating: CashSection { items: op, total: op_t },
            investing: CashSection { items: inv, total: inv_t },
            financing: CashSection { items: fin, total: fin_t },
            net_change,
            opening_cash,
            closing_cash: opening_cash + net_change,
        }
    }
}

/// The three sections together carry every account's cash effect exactly once: their
/// totals add up to the sum of all cash effects, and their sizes to at most all accounts.
pub proof fn lemma_sections_partition(rows: Seq<AccountNet>)
    ensures
        sum(cash_amounts(section_rows(rows, CashSectionKind::Operating))) + sum(
            cash_amounts(section_rows(rows, CashSectionKind::Investing)),
        ) + sum(cash_amounts(section_rows(rows, CashSectionKind::Financing))) == sum(
            cash_amounts(rows),
        ),
        abs_sum(cash_amounts(section_rows(rows, CashSectionKind::Operating))) + abs_sum(
            cash_amounts(section_rows(rows, CashSectionKind::Investing)),
        ) + abs_sum(cash_amounts(section_rows(rows, CashSectionKind::Financing))) == abs_sum(
            cash_amounts(rows),
        ),
    decreases rows.len(),
{
    if rows.len() > 0 {
        let rest = rows.drop_last();
        lemma_sections_partition(rest);
        assert(cash_amounts(rows).drop_last() =~= cash_amounts(rest));
        let r = rows.last();
        let k = cash_section(r.account_type@);
        if cash_amount(r.account_type@, r.net as int) != 0 {
            let s = section_rows(rest, k);
            assert(cash_amounts(s.push(r)).drop_last() =~= cash_amounts(s));
        }
    }
}

/// Every line of a section comes from an account with a non-zero cash effect that the
/// section takes.
proof fn lemma_section_rows_sound(rows: Seq<AccountNet>, k: CashSectionKind)
    ensures
        forall|j: int|
            0 <= j < section_rows(rows, k).len() ==> {
                let r = #[trigger] section_rows(rows, k)[j];
                &&& rows.contains(r)
                &&& cash_amount(r.account_type@, r.net as int) != 0
                &&& cash_section(r.account_type@) == k
            },
    decreases rows.len(),
{
    if rows.len() > 0 {
        let rest = rows.drop_last();
        lemma_section_rows_sound(rest, k);
        assert forall|j: int| 0 <= j < section_rows(rows, k).len() implies rows.contains(
            #[trigger] section_rows(rows, k)[j],
        ) by {
            if j < section_rows(rest, k).len() {
                let w = choose|x: int| 0 <= x < rest.len() && rest[x] == section_rows(rest, k)[j];
                assert(rows[w] == rest[w]);
            } else {
                assert(rows[rows.len() - 1] == rows.last());
            }
        }
    }
}

/// Every account with a non-zero cash effect appears in the section its type gives.
proof fn lemma_section_rows_complete(rows: Seq<AccountNet>, i: int)
    requires
        0 <= i < rows.len(),
        cash_amount(rows[i].account_type@, rows[i].net as int) != 0,
    ensures
        section_rows(rows, cash_section(rows[i].account_type@)).contains(rows[i]),
    decreases rows.len(),
{
    let k = cash_section(rows[i].account_type@);
    let rest = rows.drop_last();
    if i < rows.len() - 1 {
        lemma_section_rows_complete(rest, i);
        assert(rest[i] == rows[i]);
        let s = section_rows(rest, k);
        let w = choose|x: int| 0 <= x < s.len() && s[x] == rows[i];
        if cash_amount(rows.last().account_type@, rows.last().net as int) != 0 && cash_section(
            rows.last().account_type@,
        ) == k {
            assert(s.push(rows.last())[w] == rows[i]);
        }
    } else {
        let s = section_rows(rest, k);
        assert(s.push(rows.last())[s.len() as int] == rows[i]);
    }
}

/// Each section holds exactly the accounts of its kinds that moved: investing the asset
/// accounts, financing the liability and equity accounts, operating the revenue and
/// expense accounts. No account of one kind shows in another kind's section.
pub proof fn lemma_section_membership(rows: Seq<AccountNet>)
    ensures
        forall|j: int|
            0 <= j < section_rows(rows, CashSectionKind::Investing).len() ==> (#[trigger] section_rows(
                rows,
                CashSectionKind::Investing,
            )[j]).account_type@ == "asset"@,
        forall|j: int|
            0 <= j < section_rows(rows, CashSectionKind::Financing).len() ==> {
                let t = (#[trigger] section_rows(rows, CashSectionKind::Financing)[j]).account_type@;
                t == "liability"@ || t == "equity"@
            },
        forall|j: int|
            0 <= j < section_rows(rows, CashSectionKind::Operating).len() ==> {
                let t = (#[trigger] section_rows(rows, CashSectionKind::Operating)[j]).account_type@;
                t == "revenue"@ || t == "expense"@
            },
        forall|i: int|
            0 <= i < rows.len() && #[trigger] rows[i].net != 0 ==> {
                let t = rows[i].account_type@;
                &&& t == "asset"@ ==> section_rows(rows, CashSectionKind::Investing).contains(
                    rows[i],
                )
                &&& (t == "liability"@ || t == "equity"@) ==> section_rows(
                    rows,
                    CashSectionKind::Financing,
                ).contains(rows[i])
                &&& (t == "revenue"@ || t == "expense"@) ==> section_rows(
                    rows,
                    CashSectionKind::Operating,
                ).contains(rows[i])
            },
{
    reveal_strlit("revenue");
    reveal_strlit("expense");
    reveal_strlit("asset");
    reveal_strlit("liability");
    reveal_strlit("equity");
    assert("revenue"@.len() == 7 && "expense"@.len() == 7 && "asset"@.len() == 5
        && "liability"@.len() == 9 && "equity"@.len() == 6);
    assert("revenue"@[0] != "expense"@[0]);
    lemma_section_rows_sound(rows, CashSectionKind::Investing);
    lemma_section_rows_sound(rows, CashSectionKind::Financing);
    lemma_section_rows_sound(rows, CashSectionKind::Operating);
    assert forall|i: int| 0 <= i < rows.len() && #[trigger] rows[i].net != 0 implies {
        let t = rows[i].account_type@;
        &&& t == "asset"@ ==> section_rows(rows, CashSectionKind::Investing).contains(rows[i])
        &&& (t == "liability"@ || t == "equity"@) ==> section_rows(
            rows,
            CashSectionKind::Financing,
        ).contains(rows[i])
        &&& (t == "revenue"@ || t == "expense"@) ==> section_rows(
            rows,
            CashSectionKind::Operating,
        ).contains(rows[i])
    } by {
        let t = rows[i].account_type@;
        if t == "asset"@ || t == "liability"@ || t == "equity"@ || t == "revenue"@ || t
            == "expense"@ {
            lemma_section_rows_complete(rows, i);
        }
    }
}

/// Each line of a section carries the negation of its account's net debit-less-credit
/// movement: credits bring cash in, debits take it out.
pub proof fn lemma_section_line_amounts(rows: Seq<AccountNet>, k: CashSectionKind)
    ensures
        forall|j: int|
            0 <= j < section_rows(rows, k).len() ==> #[trigger] cash_amounts(section_rows(rows, k))[j]
                == -section_rows(rows, k)[j].net,
{
    lemma_section_rows_sound(rows, k);
    assert forall|j: int| 0 <= j < section_rows(rows, k).len() implies #[trigger] cash_amounts(
        section_rows(rows, k),
    )[j] == -section_rows(rows, k)[j].net by {
        let r = section_rows(rows, k)[j];
        assert(cash_amount(r.account_type@, r.net as int) != 0);
    }
}

} // verus!
