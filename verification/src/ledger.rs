//! Journal lines, the double-entry balance rule and validation of entered lines.
use vstd::prelude::*;

use crate::error::{Conflict, DbError};
use crate::seqs::{lemma_sum_take_succ, lemma_take_full, prefix_sums_fit, sum};

verus! {

/// A line of a journal entry to be posted.
pub struct JournalLine {
    pub account_id: String,
    pub description: Option<String>,
    pub debit: i64,
    pub credit: i64,
}

/// The debits of a sequence of lines.
pub open spec fn debits(lines: Seq<JournalLine>) -> Seq<int> {
    lines.map_values(|l: JournalLine| l.debit as int)
}

/// The credits of a sequence of lines.
pub open spec fn credits(lines: Seq<JournalLine>) -> Seq<int> {
    lines.map_values(|l: JournalLine| l.credit as int)
}

/// Total debits equal total credits.
pub open spec fn balanced(lines: Seq<JournalLine>) -> bool {
    sum(debits(lines)) == sum(credits(lines))
}

/// A debit line.
pub open spec fn is_debit_line(l: JournalLine, account: Seq<char>, amount: int) -> bool {
    l.account_id@ == account && l.debit == amount && l.credit == 0
}

/// A line's memo is present and reads `text`.
pub open spec fn memo_is(memo: Option<String>, text: Seq<char>) -> bool {
    memo matches Some(d) && d@ == text
}

/// A credit line.
pub open spec fn is_credit_line(l: JournalLine, account: Seq<char>, amount: int) -> bool {
    l.account_id@ == account && l.debit == 0 && l.credit == amount
}

/// A line entered on a recurring template: an account with a debit and a credit.
pub struct EnteredLine {
    pub debit: i64,
    pub credit: i64,
}

/// Debits of entered lines.
pub open spec fn entered_debits(lines: Seq<EnteredLine>) -> Seq<int> {
    lines.map_values(|l: EnteredLine| l.debit as int)
}

/// Credits of entered lines.
pub open spec fn entered_credits(lines: Seq<EnteredLine>) -> Seq<int> {
    lines.map_values(|l: EnteredLine| l.credit as int)
}

/// Sums the debits and credits of entered lines.
pub fn line_totals(lines: &[EnteredLine]) -> (r: (i64, i64))
    requires
        prefix_sums_fit(entered_debits(lines@)),
        prefix_sums_fit(entered_credits(lines@)),
    ensures
        r.0 == sum(entered_debits(lines@)),
        r.1 == sum(entered_credits(lines@)),
{
    let mut d: i64 = 0;
    let mut c: i64 = 0;
    let mut i: usize = 0;
    while i < lines.len()
        invariant
            i <= lines@.len(),
            prefix_sums_fit(entered_debits(lines@)),
            prefix_sums_fit(entered_credits(lines@)),
            d == sum(entered_debits(lines@).take(i as int)),
            c == sum(entered_credits(lines@).take(i as int)),
        decreases lines.len() - i,
    {
        proof {
            lemma_sum_take_succ(entered_debits(lines@), i as int);
            lemma_sum_take_succ(entered_credits(lines@), i as int);
            assert(i64::MIN <= sum(entered_debits(lines@).take(i + 1)) <= i64::MAX);
            assert(i64::MIN <= sum(entered_credits(lines@).take(i + 1)) <= i64::MAX);
        }
        d = d + lines[i].debit;
        c = c + lines[i].credit;
        i = i + 1;
    }
    proof {
        lemma_take_full(entered_debits(lines@));
        lemma_take_full(entered_credits(lines@));
    }
    (d, c)
}

/// Validates the lines of a recurring journal entry: at least two lines, and total
/// debits equal to total credits.
pub fn validate_lines(lines: &[EnteredLine]) -> (r: Result<(), DbError>)
    requires
        lines.len() >= 2 ==> prefix_sums_fit(entered_debits(lines@)),
        lines.len() >= 2 ==> prefix_sums_fit(entered_credits(lines@)),
    ensures
        lines.len() < 2 ==> r == Err::<(), DbError>(DbError::Conflict(Conflict::TooFewLines)),
        lines.len() >= 2 ==> (r is Ok <==> sum(entered_debits(lines@)) == sum(
            entered_credits(lines@),
        )),
        lines.len() >= 2 && r is Err ==> r == Err::<(), DbError>(
            DbError::Conflict(
                Conflict::Unbalanced {
                    debit: sum(entered_debits(lines@)) as i64,
                    credit: sum(entered_credits(lines@)) as i64,
                },
            ),
        ),
{
    if lines.len() < 2 {
        return Err(DbError::Conflict(Conflict::TooFewLines));
    }
    let (d, c) = line_totals(lines);
    if d != c {
        return Err(DbError::Conflict(Conflict::Unbalanced { debit: d, credit: c }));
    }
    Ok(())
}

/// The two lines of a transfer of `amount` from `credit_account` to `debit_account`.
pub fn transfer_lines(
    debit_account: &str,
    credit_account: &str,
    amount: i64,
    debit_memo: Option<String>,
    credit_memo: Option<String>,
) -> (r: Vec<JournalLine>)
    ensures
        r.len() == 2,
        is_debit_line(r@[0], debit_account@, amount as int),
        is_credit_line(r@[1], credit_account@, amount as int),
        r@[0].description == debit_memo,
        r@[1].description == credit_memo,
        balanced(r@),
{
    let mut v: Vec<JournalLine> = Vec::new();
    v.push(
        JournalLine {
            account_id: String::from_str(debit_account),
            description: debit_memo,
            debit: amount,
            credit: 0,
        },
    );
    v.push(
        JournalLine {
            account_id: String::from_str(credit_account),
            description: credit_memo,
            debit: 0,
            credit: amount,
        },
    );
    proof {
        lemma_two_lines_balanced(v@);
    }
    v
}

/// Two lines where the first debits what the second credits are balanced.
pub proof fn lemma_two_lines_balanced(v: Seq<JournalLine>)
    requires
        v.len() == 2,
        v[0].credit == 0,
        v[1].debit == 0,
        v[0].debit == v[1].credit,
    ensures
        balanced(v),
{
    let d = debits(v);
    let c = credits(v);
    assert(d.drop_last().drop_last() =~= Seq::<int>::empty());
    assert(c.drop_last().drop_last() =~= Seq::<int>::empty());
    assert(sum(Seq::<int>::empty()) == 0);
    assert(d.drop_last().last() == v[0].debit);
    assert(c.drop_last().last() == v[0].credit);
    assert(sum(d.drop_last()) == v[0].debit);
    assert(sum(c.drop_last()) == v[0].credit);
}

} // verus!
