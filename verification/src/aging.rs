//! The aging report: open balances per contact, bucketed by how long they are overdue.
use vstd::prelude::*;

use crate::dates::CalDate;
use crate::reports::ReportRepo;
use crate::seqs::{lemma_sum_push, prefix_sums_fit, sum};
use crate::text::{chars_le, chars_lt, lemma_chars_le_transitive, lemma_chars_lt_total, str_lt};
use crate::time_ops::date_days_between;

verus! {

/// An open document: its contact, due date and balance.
pub struct OpenItem {
    pub contact_id: u128,
    pub contact_name: String,
    pub due_date: CalDate,
    pub balance: i64,
}

/// A contact's line of the report, or the totals line.
pub struct AgingRow {
    pub contact_id: u128,
    pub contact_name: String,
    pub current: i64,
    pub days_1_30: i64,
    pub days_31_60: i64,
    pub days_61_90: i64,
    pub days_over_90: i64,
    pub total: i64,
}

/// The aging report.
pub struct AgingReport {
    pub rows: Vec<AgingRow>,
    pub totals: AgingRow,
}

/// The bucket of a balance `days` overdue: 0 current (not overdue), 1 for 1–30 days,
/// 2 for 31–60, 3 for 61–90, 4 beyond.
pub open spec fn bucket(days: int) -> int {
    if days <= 0 {
        0
    } else if days <= 30 {
        1
    } else if days <= 60 {
        2
    } else if days <= 90 {
        3
    } else {
        4
    }
}

/// Days an item is overdue on `as_of`.
pub open spec fn overdue(as_of: CalDate, it: OpenItem) -> int {
    as_of.day_number() - it.due_date.day_number()
}

/// Some item belongs to contact `k`.
pub open spec fn has_contact(items: Seq<OpenItem>, k: u128) -> bool {
    exists|i: int| 0 <= i < items.len() && #[trigger] items[i].contact_id == k
}

/// A contact's line: name (from its first item), the five bucket sums and the total.
pub struct AgingGroup {
    pub name: Seq<char>,
    pub b: Seq<int>,
    pub total: int,
}

/// The group of contact `k` in `items`.
pub open spec fn aging_group(items: Seq<OpenItem>, as_of: CalDate, k: u128) -> AgingGroup
    decreases items.len(),
{
    if items.len() == 0 {
        AgingGroup { name: Seq::empty(), b: seq![0, 0, 0, 0, 0], total: 0 }
    } else {
        let it = items.last();
        let g = aging_group(items.drop_last(), as_of, k);
        let bk = bucket(overdue(as_of, it));
        if it.contact_id != k {
            g
        } else if has_contact(items.drop_last(), k) {
            AgingGroup {
                name: g.name,
                b: g.b.update(bk, g.b[bk] + it.balance),
                total: g.total + it.balance,
            }
        } else {
            AgingGroup {
                name: it.contact_name@,
                b: seq![0int, 0, 0, 0, 0].update(bk, it.balance as int),
                total: it.balance as int,
            }
        }
    }
}

/// `r` shows group `g` of contact `k`.
pub open spec fn row_is(r: AgingRow, k: u128, g: AgingGroup) -> bool {
    &&& r.contact_id == k
    &&& r.contact_name@ == g.name
    &&& g.b.len() == 5
    &&& r.current == g.b[0]
    &&& r.days_1_30 == g.b[1]
    &&& r.days_31_60 == g.b[2]
    &&& r.days_61_90 == g.b[3]
    &&& r.days_over_90 == g.b[4]
    &&& r.total == g.total
}

/// `rows` has one line per contact of `items`, showing its group, sorted by name.
pub open spec fn aging_breakdown(items: Seq<OpenItem>, as_of: CalDate, rows: Seq<AgingRow>) -> bool {
    &&& forall|i: int|
        0 <= i < rows.len() ==> has_contact(items, (#[trigger] rows[i]).contact_id) && row_is(
            rows[i],
            rows[i].contact_id,
            aging_group(items, as_of, rows[i].contact_id),
        )
    &&& forall|i: int, j: int| 0 <= i < j < rows.len() ==> rows[i].contact_id != rows[j].contact_id
    &&& forall|i: int|
        0 <= i < items.len() ==> exists|j: int|
            0 <= j < rows.len() && rows[j].contact_id == #[trigger] items[i].contact_id
    &&& forall|i: int, j: int|
        0 <= i < j < rows.len() ==> chars_le(rows[i].contact_name@, rows[j].contact_name@)
}

/// The contacts' lines that the report keeps: those with a positive total, in order.
pub open spec fn kept_rows(rows: Seq<AgingRow>) -> Seq<AgingRow>
    decreases rows.len(),
{
    if rows.len() == 0 {
        Seq::empty()
    } else {
        let rest = kept_rows(rows.drop_last());
        if rows.last().total > 0 {
            rest.push(rows.last())
        } else {
            rest
        }
    }
}

/// A column of rows.
pub open spec fn column(rows: Seq<AgingRow>, c: int) -> Seq<int> {
    rows.map_values(
        |r: AgingRow|
            if c == 0 {
                r.current as int
            } else if c == 1 {
                r.days_1_30 as int
            } else if c == 2 {
                r.days_31_60 as int
            } else if c == 3 {
                r.days_61_90 as int
            } else if c == 4 {
                r.days_over_90 as int
            } else {
                r.total as int
            },
    )
}

/// The figures of a contact's line stay within 64 bits.
pub open spec fn group_fits(g: AgingGroup) -> bool {
    &&& forall|c: int| 0 <= c < 5 ==> i64::MIN <= #[trigger] g.b[c] <= i64::MAX
    &&& i64::MIN <= g.total <= i64::MAX
}

/// Every sum the report computes stays within 64 bits: each contact's buckets and total
/// as its items are added in turn, and the running column totals of the lines kept, in
/// whichever name order the lines are listed.
pub open spec fn aging_fits(items: Seq<OpenItem>, as_of: CalDate) -> bool {
    &&& forall|j: int, k: u128|
        0 <= j <= items.len() ==> group_fits(#[trigger] aging_group(items.take(j), as_of, k))
    &&& forall|all: Seq<AgingRow>|
        #[trigger] aging_breakdown(items, as_of, all) ==> forall|c: int|
            0 <= c < 6 ==> prefix_sums_fit(#[trigger] column(kept_rows(all), c))
}

/// The sum of the balances of contact `k`'s items whose days overdue on `as_of` (days from
/// the due date to `as_of`) satisfy `within`.
pub open spec fn balance_where(
    items: Seq<OpenItem>,
    as_of: CalDate,
    k: u128,
    within: spec_fn(int) -> bool,
) -> int
    decreases items.len(),
{
    if items.len() == 0 {
        0
    } else {
        let it = items.last();
        balance_where(items.drop_last(), as_of, k, within) + if it.contact_id == k && within(
            as_of.day_number() - it.due_date.day_number(),
        ) {
            it.balance as int
        } else {
            0
        }
    }
}

// ── lemmas ─────────────────────────────────────────────────────────────────────

proof fn lemma_group_shape(items: Seq<OpenItem>, as_of: CalDate, k: u128)
    ensures
        aging_group(items, as_of, k).b.len() == 5,
        aging_group(items, as_of, k).total == aging_group(items, as_of, k).b[0] + aging_group(
            items,
            as_of,
            k,
        ).b[1] + aging_group(items, as_of, k).b[2] + aging_group(items, as_of, k).b[3]
            + aging_group(items, as_of, k).b[4],
    decreases items.len(),
{
    if items.len() > 0 {
        lemma_group_shape(items.drop_last(), as_of, k);
    }
}

proof fn lemma_has_contact_push(items: Seq<OpenItem>, it: OpenItem, k: u128)
    ensures
        has_contact(items.push(it), k) == (has_contact(items, k) || it.contact_id == k),
{
    if has_contact(items, k) {
        let i = choose|i: int| 0 <= i < items.len() && #[trigger] items[i].contact_id == k;
        assert(items.push(it)[i].contact_id == k);
    }
    if it.contact_id == k {
        assert(items.push(it)[items.len() as int].contact_id == k);
    }
    if has_contact(items.push(it), k) {
        let i = choose|i: int|
            0 <= i < items.push(it).len() && #[trigger] items.push(it)[i].contact_id == k;
        if i < items.len() {
            assert(items[i].contact_id == k);
        }
    }
}

proof fn lemma_balance_where_absent(
    items: Seq<OpenItem>,
    as_of: CalDate,
    k: u128,
    within: spec_fn(int) -> bool,
)
    requires
        !has_contact(items, k),
    ensures
        balance_where(items, as_of, k, within) == 0,
    decreases items.len(),
{
    if items.len() > 0 {
        let rest = items.drop_last();
        assert(rest.push(items.last()) =~= items);
        lemma_has_contact_push(rest, items.last(), k);
        lemma_balance_where_absent(rest, as_of, k, within);
    }
}

/// Column `c` of contact `k`'s line sums the balances of its items whose days overdue
/// satisfy `within`, when `within` picks exactly the days of bucket `c`.
proof fn lemma_group_column(
    items: Seq<OpenItem>,
    as_of: CalDate,
    k: u128,
    c: int,
    within: spec_fn(int) -> bool,
)
    requires
        0 <= c < 5,
        forall|d: int| #[trigger] within(d) <==> bucket(d) == c,
    ensures
        aging_group(items, as_of, k).b[c] == balance_where(items, as_of, k, within),
    decreases items.len(),
{
    if items.len() > 0 {
        let rest = items.drop_last();
        let it = items.last();
        lemma_group_column(rest, as_of, k, c, within);
        lemma_group_shape(rest, as_of, k);
        let bk = bucket(overdue(as_of, it));
        assert(within(overdue(as_of, it)) <==> bk == c);
        if it.contact_id == k && !has_contact(rest, k) {
            lemma_balance_where_absent(rest, as_of, k, within);
        }
    }
}

/// Each line of the report puts a contact's balances in the column of how long they are
/// overdue on the report date: not overdue (0 days or fewer) in `current`, 1 to 30 days in
/// `days_1_30`, 31 to 60 in `days_31_60`, 61 to 90 in `days_61_90` and more than 90 in
/// `days_over_90`.
pub proof fn lemma_aging_columns(items: Seq<OpenItem>, as_of: CalDate, rows: Seq<AgingRow>)
    requires
        aging_breakdown(items, as_of, rows),
    ensures
        forall|i: int|
            0 <= i < rows.len() ==> {
                let k = (#[trigger] rows[i]).contact_id;
                &&& rows[i].current == balance_where(items, as_of, k, |d: int| d <= 0)
                &&& rows[i].days_1_30 == balance_where(items, as_of, k, |d: int| 1 <= d <= 30)
                &&& rows[i].days_31_60 == balance_where(items, as_of, k, |d: int| 31 <= d <= 60)
                &&& rows[i].days_61_90 == balance_where(items, as_of, k, |d: int| 61 <= d <= 90)
                &&& rows[i].days_over_90 == balance_where(items, as_of, k, |d: int| d > 90)
            },
{
    assert forall|i: int| 0 <= i < rows.len() implies {
        let k = (#[trigger] rows[i]).contact_id;
        &&& rows[i].current == balance_where(items, as_of, k, |d: int| d <= 0)
        &&& rows[i].days_1_30 == balance_where(items, as_of, k, |d: int| 1 <= d <= 30)
        &&& rows[i].days_31_60 == balance_where(items, as_of, k, |d: int| 31 <= d <= 60)
        &&& rows[i].days_61_90 == balance_where(items, as_of, k, |d: int| 61 <= d <= 90)
        &&& rows[i].days_over_90 == balance_where(items, as_of, k, |d: int| d > 90)
    } by {
        let k = rows[i].contact_id;
        lemma_group_column(items, as_of, k, 0, |d: int| d <= 0);
        lemma_group_column(items, as_of, k, 1, |d: int| 1 <= d <= 30);
        lemma_group_column(items, as_of, k, 2, |d: int| 31 <= d <= 60);
        lemma_group_column(items, as_of, k, 3, |d: int| 61 <= d <= 90);
        lemma_group_column(items, as_of, k, 4, |d: int| d > 90);
    }
}

proof fn lemma_breakdown_update(
    items: Seq<OpenItem>,
    as_of: CalDate,
    rows: Seq<AgingRow>,
    it: OpenItem,
    j: int,
    r: AgingRow,
)
    requires
        aging_breakdown(items, as_of, rows),
        0 <= j < rows.len(),
        rows[j].contact_id == it.contact_id,
        row_is(r, it.contact_id, aging_group(items.push(it), as_of, it.contact_id)),
        r.contact_name@ == rows[j].contact_name@,
    ensures
        aging_breakdown(items.push(it), as_of, rows.update(j, r)),
{
    let items2 = items.push(it);
    let rows2 = rows.update(j, r);
    assert(items2.drop_last() =~= items);
    assert forall|i: int| 0 <= i < rows2.len() implies has_contact(
        items2,
        (#[trigger] rows2[i]).contact_id,
    ) && row_is(rows2[i], rows2[i].contact_id, aging_group(items2, as_of, rows2[i].contact_id)) by {
        lemma_has_contact_push(items, it, rows2[i].contact_id);
        assert(has_contact(items, rows[i].contact_id));
    }
    assert forall|i: int| 0 <= i < items2.len() implies exists|t: int|
        0 <= t < rows2.len() && rows2[t].contact_id == #[trigger] items2[i].contact_id by {
        if i < items.len() {
            assert(items2[i] == items[i]);
            let t = choose|t: int|
                0 <= t < rows.len() && rows[t].contact_id == #[trigger] items[i].contact_id;
            assert(rows2[t].contact_id == items2[i].contact_id);
        } else {
            assert(rows2[j].contact_id == items2[i].contact_id);
        }
    }
}

proof fn lemma_breakdown_insert(
    items: Seq<OpenItem>,
    as_of: CalDate,
    rows: Seq<AgingRow>,
    it: OpenItem,
    p: int,
    r: AgingRow,
)
    requires
        aging_breakdown(items, as_of, rows),
        forall|t: int| 0 <= t < rows.len() ==> #[trigger] rows[t].contact_id != it.contact_id,
        0 <= p <= rows.len(),
        forall|t: int| 0 <= t < p ==> !chars_lt(r.contact_name@, #[trigger] rows[t].contact_name@),
        p < rows.len() ==> chars_lt(r.contact_name@, rows[p].contact_name@),
        row_is(r, it.contact_id, aging_group(items.push(it), as_of, it.contact_id)),
    ensures
        aging_breakdown(items.push(it), as_of, rows.insert(p, r)),
{
    let items2 = items.push(it);
    let rows2 = rows.insert(p, r);
    assert(items2.drop_last() =~= items);
    assert forall|i: int| 0 <= i < rows2.len() implies has_contact(
        items2,
        (#[trigger] rows2[i]).contact_id,
    ) && row_is(rows2[i], rows2[i].contact_id, aging_group(items2, as_of, rows2[i].contact_id)) by {
        lemma_has_contact_push(items, it, rows2[i].contact_id);
        if i < p {
            assert(rows2[i] == rows[i]);
            assert(has_contact(items, rows[i].contact_id));
        } else if i > p {
            assert(rows2[i] == rows[i - 1]);
            assert(has_contact(items, rows[i - 1].contact_id));
        }
    }
    assert forall|i: int, j: int| 0 <= i < j < rows2.len() implies rows2[i].contact_id
        != rows2[j].contact_id by {
        if i < p && j > p {
            assert(rows2[j] == rows[j - 1]);
        } else if i > p {
            assert(rows2[i] == rows[i - 1] && rows2[j] == rows[j - 1]);
        } else if i == p {
            assert(rows2[j] == rows[j - 1]);
        } else if j == p {
            assert(rows2[i] == rows[i]);
        }
    }
    assert forall|i: int| 0 <= i < items2.len() implies exists|t: int|
        0 <= t < rows2.len() && rows2[t].contact_id == #[trigger] items2[i].contact_id by {
        if i < items.len() {
            assert(items2[i] == items[i]);
            let t = choose|t: int|
                0 <= t < rows.len() && rows[t].contact_id == #[trigger] items[i].contact_id;
            if t < p {
                assert(rows2[t].contact_id == items2[i].contact_id);
            } else {
                assert(rows2[t + 1].contact_id == items2[i].contact_id);
            }
        } else {
            assert(rows2[p].contact_id == items2[i].contact_id);
        }
    }
    assert forall|i: int, j: int| 0 <= i < j < rows2.len() implies chars_le(
        rows2[i].contact_name@,
        rows2[j].contact_name@,
    ) by {
        if j < p {
            assert(rows2[i] == rows[i] && rows2[j] == rows[j]);
        } else if i > p {
            assert(rows2[i] == rows[i - 1] && rows2[j] == rows[j - 1]);
        } else if i < p && j > p {
            assert(rows2[i] == rows[i] && rows2[j] == rows[j - 1]);
            lemma_chars_lt_total(r.contact_name@, rows[i].contact_name@);
            if p < j - 1 {
                assert(chars_le(rows[p].contact_name@, rows[j - 1].contact_name@));
            }
            lemma_chars_le_transitive(rows[i].contact_name@, r.contact_name@, rows[p].contact_name@);
            lemma_chars_le_transitive(
                rows[i].contact_name@,
                rows[p].contact_name@,
                rows[j - 1].contact_name@,
            );
        } else if i == p {
            assert(rows2[j] == rows[j - 1]);
            if p < j - 1 {
                assert(chars_le(rows[p].contact_name@, rows[j - 1].contact_name@));
            }
            lemma_chars_le_transitive(r.contact_name@, rows[p].contact_name@, rows[j - 1].contact_name@);
        } else {
            assert(j == p);
            assert(rows2[i] == rows[i]);
            lemma_chars_lt_total(r.contact_name@, rows[i].contact_name@);
        }
    }
}

// ── computation ────────────────────────────────────────────────────────────────

fn find_contact(rows: &Vec<AgingRow>, k: u128) -> (r: Option<usize>)
    ensures
        r matches Some(j) ==> j < rows.len() && rows@[j as int].contact_id == k,
        r is None ==> forall|t: int| 0 <= t < rows.len() ==> #[trigger] rows@[t].contact_id != k,
{
    let mut j: usize = 0;
    while j < rows.len()
        invariant
            j <= rows.len(),
            forall|t: int| 0 <= t < j ==> #[trigger] rows@[t].contact_id != k,
        decreases rows.len() - j,
    {
        if rows[j].contact_id == k {
            return Some(j);
        }
        j = j + 1;
    }
    None
}

fn bucket_of(days: i64) -> (r: usize)
    ensures
        r == bucket(days as int),
{
    if days <= 0 {
        0
    } else if days <= 30 {
        1
    } else if days <= 60 {
        2
    } else if days <= 90 {
        3
    } else {
        4
    }
}

/// Adds one item to the contacts' lines.
fn add_item(
    rows: &mut Vec<AgingRow>,
    it: &OpenItem,
    as_of: CalDate,
    Ghost(items): Ghost<Seq<OpenItem>>,
)
    requires
        aging_breakdown(items, as_of, old(rows)@),
        group_fits(aging_group(items.push(*it), as_of, it.contact_id)),
        as_of.valid(),
        it.due_date.valid(),
    ensures
        aging_breakdown(items.push(*it), as_of, final(rows)@),
        final(rows).len() <= old(rows).len() + 1,
{
    let days = date_days_between(as_of, it.due_date);
    let bk = bucket_of(days);
    let k = it.contact_id;
    let ghost items2 = items.push(*it);
    proof {
        assert(items2.drop_last() =~= items);
        lemma_group_shape(items2, as_of, k);
        lemma_group_shape(items, as_of, k);
    }
    let ghost before = rows@;
    match find_contact(rows, k) {
        Some(j) => {
            proof {
                assert(has_contact(items, rows@[j as int].contact_id));
            }
            let old_r = rows.remove(j);
            let b = it.balance;
            let r = AgingRow {
                contact_id: old_r.contact_id,
                contact_name: old_r.contact_name,
                current: if bk == 0 {
                    old_r.current + b
                } else {
                    old_r.current
                },
                days_1_30: if bk == 1 {
                    old_r.days_1_30 + b
                } else {
                    old_r.days_1_30
                },
                days_31_60: if bk == 2 {
                    old_r.days_31_60 + b
                } else {
                    old_r.days_31_60
                },
                days_61_90: if bk == 3 {
                    old_r.days_61_90 + b
                } else {
                    old_r.days_61_90
                },
                days_over_90: if bk == 4 {
                    old_r.days_over_90 + b
                } else {
                    old_r.days_over_90
                },
                total: old_r.total + b,
            };
            let ghost rv = r;
            rows.insert(j, r);
            proof {
                assert(rows@ =~= before.update(j as int, rv));
                lemma_breakdown_update(items, as_of, before, *it, j as int, rv);
            }
        },
        None => {
            let b = it.balance;
            let name = it.contact_name.clone();
            let mut p: usize = 0;
            while p < rows.len() && !str_lt(name.as_str(), rows[p].contact_name.as_str())
                invariant
                    p <= rows.len(),
                    forall|t: int| 0 <= t < p ==> !chars_lt(name@, #[trigger] rows@[t].contact_name@),
                decreases rows.len() - p,
            {
                p = p + 1;
            }
            let r = AgingRow {
                contact_id: k,
                contact_name: name,
                current: if bk == 0 {
                    b
                } else {
                    0
                },
                days_1_30: if bk == 1 {
                    b
                } else {
                    0
                },
                days_31_60: if bk == 2 {
                    b
                } else {
                    0
                },
                days_61_90: if bk == 3 {
                    b
                } else {
                    0
                },
                days_over_90: if bk == 4 {
                    b
                } else {
                    0
                },
                total: b,
            };
            let ghost rv = r;
            rows.insert(p, r);
            proof {
                assert(!has_contact(items, k)) by {
                    if has_contact(items, k) {
                        let i = choose|i: int| 0 <= i < items.len() && #[trigger] items[i].contact_id == k;
                        let t = choose|t: int|
                            0 <= t < before.len() && before[t].contact_id == #[trigger] items[i].contact_id;
                        assert(before[t].contact_id != k);
                    }
                }
                lemma_breakdown_insert(items, as_of, before, *it, p as int, rv);
            }
        },
    }
}

proof fn lemma_kept_take(rows: Seq<AgingRow>, i: int)
    requires
        0 <= i < rows.len(),
    ensures
        kept_rows(rows.take(i + 1)) == if rows[i].total > 0 {
            kept_rows(rows.take(i)).push(rows[i])
        } else {
            kept_rows(rows.take(i))
        },
{
    assert(rows.take(i + 1).drop_last() =~= rows.take(i));
}

/// The lines kept from a prefix of the contacts' lines are a prefix of the lines kept.
proof fn lemma_kept_prefix(rows: Seq<AgingRow>, j: int) -> (m: int)
    requires
        0 <= j <= rows.len(),
    ensures
        0 <= m <= kept_rows(rows).len(),
        kept_rows(rows).take(m) == kept_rows(rows.take(j)),
    decreases rows.len(),
{
    if j == rows.len() {
        assert(rows.take(j) =~= rows);
        assert(kept_rows(rows).take(kept_rows(rows).len() as int) =~= kept_rows(rows));
        kept_rows(rows).len() as int
    } else {
        let rest = rows.drop_last();
        assert(rows.take(j) =~= rest.take(j));
        let m = lemma_kept_prefix(rest, j);
        assert(kept_rows(rows).take(m) =~= kept_rows(rest).take(m));
        m
    }
}

/// A running column total of the kept lines fits whenever the column's prefix sums do.
proof fn lemma_kept_running_fits(rows: Seq<AgingRow>, j: int, c: int)
    requires
        0 <= j <= rows.len(),
        prefix_sums_fit(column(kept_rows(rows), c)),
    ensures
        i64::MIN <= sum(column(kept_rows(rows.take(j)), c)) <= i64::MAX,
{
    let m = lemma_kept_prefix(rows, j);
    let k = kept_rows(rows);
    assert(column(k.take(m), c) =~= column(k, c).take(m));
    assert(i64::MIN <= sum(column(k, c).take(m)) <= i64::MAX);
}

proof fn lemma_kept_len(rows: Seq<AgingRow>)
    ensures
        kept_rows(rows).len() <= rows.len(),
    decreases rows.len(),
{
    if rows.len() > 0 {
        lemma_kept_len(rows.drop_last());
    }
}

proof fn lemma_kept_members(rows: Seq<AgingRow>)
    ensures
        forall|i: int|
            0 <= i < kept_rows(rows).len() ==> (#[trigger] kept_rows(rows)[i]).total > 0
                && exists|j: int| 0 <= j < rows.len() && rows[j] == kept_rows(rows)[i],
    decreases rows.len(),
{
    if rows.len() > 0 {
        lemma_kept_members(rows.drop_last());
        let rest = kept_rows(rows.drop_last());
        assert forall|i: int| 0 <= i < kept_rows(rows).len() implies (#[trigger] kept_rows(
            rows,
        )[i]).total > 0 && exists|j: int| 0 <= j < rows.len() && rows[j] == kept_rows(rows)[i] by {
            if i < rest.len() {
                assert(rest[i].total > 0);
                let j = choose|j: int|
                    0 <= j < rows.drop_last().len() && rows.drop_last()[j] == rest[i];
                assert(rows[j] == kept_rows(rows)[i]);
            } else {
                assert(rows[rows.len() - 1] == kept_rows(rows)[i]);
            }
        }
    }
}

impl ReportRepo {
    /// The aging report as of a date: open balances grouped by contact (named after its
    /// first item) into current, 1–30, 31–60, 61–90 and over-90-days-overdue buckets;
    /// contacts with a positive total are listed by name, and the totals line sums them.
    pub fn aging(as_of: CalDate, items: &Vec<OpenItem>) -> (r: AgingReport)
        requires
            as_of.valid(),
            forall|i: int| 0 <= i < items.len() ==> (#[trigger] items[i]).due_date.valid(),
            aging_fits(items@, as_of),
        ensures
            exists|all: Seq<AgingRow>|
                aging_breakdown(items@, as_of, all) && r.rows@ == kept_rows(all),
            forall|i: int|
                0 <= i < r.rows.len() ==> (#[trigger] r.rows@[i]).total > 0 && r.rows@[i].total
                    == r.rows@[i].current + r.rows@[i].days_1_30 + r.rows@[i].days_31_60
                    + r.rows@[i].days_61_90 + r.rows@[i].days_over_90,
            r.totals.contact_name@ == "Total"@,
            r.totals.current == sum(column(r.rows@, 0)),
            r.totals.days_1_30 == sum(column(r.rows@, 1)),
            r.totals.days_31_60 == sum(column(r.rows@, 2)),
            r.totals.days_61_90 == sum(column(r.rows@, 3)),
            r.totals.days_over_90 == sum(column(r.rows@, 4)),
            r.totals.total == sum(column(r.rows@, 5)),
    {
        let mut all: Vec<AgingRow> = Vec::new();
        let mut i: usize = 0;
        while i < items.len()
            invariant
                i <= items.len(),
                as_of.valid(),
                forall|t: int| 0 <= t < items.len() ==> (#[trigger] items[t]).due_date.valid(),
                aging_fits(items@, as_of),
                aging_breakdown(items@.take(i as int), as_of, all@),
                all.len() <= i,
            decreases items.len() - i,
        {
            proof {
                assert(items@.take(i + 1) =~= items@.take(i as int).push(items@[i as int]));
                assert(group_fits(aging_group(items@.take(i + 1), as_of, items@[i as int].contact_id)));
            }
            add_item(&mut all, &items[i], as_of, Ghost(items@.take(i as int)));
            i = i + 1;
        }
        proof {
            assert(items@.take(items.len() as int) =~= items@);
        }
        // Keep contacts with a positive total, and sum the columns.
        let ghost full = all@;
        let n = all.len();
        proof {
            assert(aging_breakdown(items@, as_of, full));
            assert forall|t: int| 0 <= t < n implies (#[trigger] full[t]).total
                == full[t].current + full[t].days_1_30 + full[t].days_31_60 + full[t].days_61_90
                + full[t].days_over_90 by {
                lemma_group_shape(items@, as_of, full[t].contact_id);
            }
        }
        let mut kept: Vec<AgingRow> = Vec::new();
        let mut sums: [i64; 6] = [0, 0, 0, 0, 0, 0];
        let mut j: usize = 0;
        while j < n
            invariant
                j <= n,
                n == all.len(),
                full == all@,
                forall|c: int| 0 <= c < 6 ==> prefix_sums_fit(#[trigger] column(kept_rows(full), c)),
                forall|t: int|
                    0 <= t < n ==> (#[trigger] full[t]).total == full[t].current + full[t].days_1_30
                        + full[t].days_31_60 + full[t].days_61_90 + full[t].days_over_90,
                kept@ == kept_rows(full.take(j as int)),
                forall|c: int| 0 <= c < 6 ==> sums@[c] == sum(#[trigger] column(kept@, c)),
            decreases n - j,
        {
            proof {
                lemma_kept_take(full, j as int);
            }
            let row = all[j].clone_row();
            if row.total > 0 {
                let ghost kb = kept@;
                let ghost kp = kb.push(row);
                proof {
                    assert forall|c: int| 0 <= c < 6 implies i64::MIN <= sum(#[trigger] column(kp, c))
                        <= i64::MAX && sum(column(kp, c)) == sum(column(kb, c)) + column(kp, c).last() by {
                        lemma_kept_running_fits(full, j + 1, c);
                        assert(column(kp, c) =~= column(kb, c).push(column(kp, c).last()));
                        lemma_sum_push(column(kb, c), column(kp, c).last());
                    }
                    assert(column(kp, 0).last() == row.current);
                    assert(column(kp, 1).last() == row.days_1_30);
                    assert(column(kp, 2).last() == row.days_31_60);
                    assert(column(kp, 3).last() == row.days_61_90);
                    assert(column(kp, 4).last() == row.days_over_90);
                    assert(column(kp, 5).last() == row.total);
                    assert(sum(column(kp, 0)) == sums@[0] + row.current);
                    assert(sum(column(kp, 1)) == sums@[1] + row.days_1_30);
                    assert(sum(column(kp, 2)) == sums@[2] + row.days_31_60);
                    assert(sum(column(kp, 3)) == sums@[3] + row.days_61_90);
                    assert(sum(column(kp, 4)) == sums@[4] + row.days_over_90);
                    assert(sum(column(kp, 5)) == sums@[5] + row.total);
                }
                sums[0] = sums[0] + row.current;
                sums[1] = sums[1] + row.days_1_30;
                sums[2] = sums[2] + row.days_31_60;
                sums[3] = sums[3] + row.days_61_90;
                sums[4] = sums[4] + row.days_over_90;
                sums[5] = sums[5] + row.total;
                kept.push(row);
                proof {
                    assert(kept@ == kp);
                    assert forall|c: int| 0 <= c < 6 implies sums@[c] == sum(
                        #[trigger] column(kept@, c),
                    ) by {
                        assert(column(kp, c) =~= column(kb, c).push(column(kp, c).last()));
                    }
                }
            }
            j = j + 1;
        }
        proof {
            assert(full.take(n as int) =~= full);
            lemma_kept_members(full);
            assert(aging_breakdown(items@, as_of, full) && kept@ == kept_rows(full));
            assert forall|i: int| 0 <= i < kept.len() implies (#[trigger] kept@[i]).total > 0
                && kept@[i].total == kept@[i].current + kept@[i].days_1_30 + kept@[i].days_31_60
                + kept@[i].days_61_90 + kept@[i].days_over_90 by {
                let t = choose|t: int| 0 <= t < full.len() && full[t] == kept_rows(full)[i];
                assert(full[t] == kept@[i]);
            }
        }
        let totals = AgingRow {
            contact_id: 0,
            contact_name: String::from_str("Total"),
            current: sums[0],
            days_1_30: sums[1],
            days_31_60: sums[2],
            days_61_90: sums[3],
            days_over_90: sums[4],
            total: sums[5],
        };
        AgingReport { rows: kept, totals }
    }
}

impl AgingRow {
    /// A copy of the line.
    pub fn clone_row(&self) -> (r: AgingRow)
        ensures
            r == *self,
    {
        AgingRow {
            contact_id: self.contact_id,
            contact_name: self.contact_name.clone(),
            current: self.current,
            days_1_30: self.days_1_30,
            days_31_60: self.days_31_60,
            days_61_90: self.days_61_90,
            days_over_90: self.days_over_90,
            total: self.total,
        }
    }
}

} // verus!
