//! Job costing: the actual cost of each project (time and expenses) against its budget,
//! broken down by cost code.
use vstd::prelude::*;

use crate::dates::CalDate;
use crate::reports::ReportRepo;
use crate::seqs::{
    lemma_map_push, lemma_sum_concat, lemma_sum_insert, lemma_sum_update, prefix_sums_fit, sum,
};
use crate::text::{
    chars_le, chars_lt, lemma_chars_le_transitive, lemma_chars_lt_asymmetric,
    lemma_chars_lt_total, str_lt,
};

verus! {

/// A project with its budget.
pub struct ProjectBudget {
    pub project_id: u128,
    pub project_name: String,
    pub budget: i64,
}

/// Cost booked to a project under one cost code (time or expenses), with the cost code's
/// labels when it has one.
pub struct CostRow {
    pub project_id: u128,
    pub cost_code_id: Option<u128>,
    pub cost_code: Option<String>,
    pub cost_code_name: Option<String>,
    pub cost_type: Option<String>,
    pub total: i64,
}

/// Actual cost of one project under one cost code.
pub struct CostCodeTotal {
    pub cost_code_id: Option<u128>,
    pub cost_code: String,
    pub cost_code_name: String,
    pub cost_type: String,
    pub actual_cost: i64,
}

/// One project's line of the job-costing report.
pub struct JobCostingRow {
    pub project_id: u128,
    pub project_name: String,
    pub budget: i64,
    pub time_cost: i64,
    pub expense_cost: i64,
    pub bill_cost: i64,
    pub total_actual: i64,
    pub variance: i64,
    pub cost_codes: Vec<CostCodeTotal>,
}

/// The job-costing report over a date range.
pub struct JobCostingReport {
    pub from: CalDate,
    pub to: CalDate,
    pub rows: Vec<JobCostingRow>,
    pub total_budget: i64,
    pub total_actual: i64,
    pub total_variance: i64,
}

/// The rows of `rows` that belong to project `pid`, in order.
pub open spec fn rows_of(rows: Seq<CostRow>, pid: u128) -> Seq<CostRow>
    decreases rows.len(),
{
    if rows.len() == 0 {
        Seq::empty()
    } else {
        let rest = rows_of(rows.drop_last(), pid);
        if rows.last().project_id == pid {
            rest.push(rows.last())
        } else {
            rest
        }
    }
}

/// The amounts of cost rows.
pub open spec fn cost_totals(rows: Seq<CostRow>) -> Seq<int> {
    rows.map_values(|r: CostRow| r.total as int)
}

/// Some row is booked under cost code `k`.
pub open spec fn has_code(rows: Seq<CostRow>, k: Option<u128>) -> bool {
    exists|i: int| 0 <= i < rows.len() && #[trigger] rows[i].cost_code_id == k
}

/// A label, or a default when there is none.
pub open spec fn label_or(s: Option<String>, default: Seq<char>) -> Seq<char> {
    match s {
        Some(x) => x@,
        None => default,
    }
}

/// What the line of cost code `k` shows: the code, name and type from the first row booked
/// under it ("uncoded", "Uncoded" and "other" where the row has none), and the sum of all
/// its rows.
pub open spec fn code_group(rows: Seq<CostRow>, k: Option<u128>) -> (
    Seq<char>,
    Seq<char>,
    Seq<char>,
    int,
)
    decreases rows.len(),
{
    if rows.len() == 0 {
        (Seq::empty(), Seq::empty(), Seq::empty(), 0)
    } else {
        let r = rows.last();
        let g = code_group(rows.drop_last(), k);
        if r.cost_code_id != k {
            g
        } else if has_code(rows.drop_last(), k) {
            (g.0, g.1, g.2, g.3 + r.total)
        } else {
            (
                label_or(r.cost_code, "uncoded"@),
                label_or(r.cost_code_name, "Uncoded"@),
                label_or(r.cost_type, "other"@),
                r.total as int,
            )
        }
    }
}

/// `c` shows group `g`.
pub open spec fn code_line_is(c: CostCodeTotal, g: (Seq<char>, Seq<char>, Seq<char>, int)) -> bool {
    c.cost_code@ == g.0 && c.cost_code_name@ == g.1 && c.cost_type@ == g.2 && c.actual_cost == g.3
}

/// The amounts of cost-code lines.
pub open spec fn code_actuals(codes: Seq<CostCodeTotal>) -> Seq<int> {
    codes.map_values(|c: CostCodeTotal| c.actual_cost as int)
}

/// `codes` is the cost-code breakdown of `rows`: exactly one line per cost code booked in
/// `rows`, each showing its group, sorted by code.
pub open spec fn cost_code_breakdown(rows: Seq<CostRow>, codes: Seq<CostCodeTotal>) -> bool {
    &&& forall|i: int|
        0 <= i < codes.len() ==> has_code(rows, #[trigger] codes[i].cost_code_id) && code_line_is(
            codes[i],
            code_group(rows, codes[i].cost_code_id),
        )
    &&& forall|i: int, j: int|
        0 <= i < j < codes.len() ==> codes[i].cost_code_id != codes[j].cost_code_id
    &&& forall|i: int|
        0 <= i < rows.len() ==> exists|j: int|
            0 <= j < codes.len() && codes[j].cost_code_id == #[trigger] rows[i].cost_code_id
    &&& forall|i: int, j: int|
        0 <= i < j < codes.len() ==> chars_le(codes[i].cost_code@, codes[j].cost_code@)
}

/// Time plus expense cost of project `pid`.
pub open spec fn project_cost(time: Seq<CostRow>, exp: Seq<CostRow>, pid: u128) -> int {
    sum(cost_totals(rows_of(time, pid))) + sum(cost_totals(rows_of(exp, pid)))
}

/// The projects that appear in the report: those with a positive actual cost or budget.
pub open spec fn kept_projects(
    ps: Seq<ProjectBudget>,
    time: Seq<CostRow>,
    exp: Seq<CostRow>,
) -> Seq<ProjectBudget>
    decreases ps.len(),
{
    if ps.len() == 0 {
        Seq::empty()
    } else {
        let rest = kept_projects(ps.drop_last(), time, exp);
        let p = ps.last();
        if project_cost(time, exp, p.project_id) > 0 || p.budget > 0 {
            rest.push(p)
        } else {
            rest
        }
    }
}

/// Budgets of projects.
pub open spec fn budgets(ps: Seq<ProjectBudget>) -> Seq<int> {
    ps.map_values(|p: ProjectBudget| p.budget as int)
}

/// Actual costs of projects.
pub open spec fn project_costs(ps: Seq<ProjectBudget>, time: Seq<CostRow>, exp: Seq<CostRow>) -> Seq<
    int,
> {
    ps.map_values(|p: ProjectBudget| project_cost(time, exp, p.project_id))
}

/// `row` is the report line of project `p`.
pub open spec fn job_row_is(
    p: ProjectBudget,
    time: Seq<CostRow>,
    exp: Seq<CostRow>,
    row: JobCostingRow,
) -> bool {
    &&& row.project_id == p.project_id
    &&& row.project_name@ == p.project_name@
    &&& row.budget == p.budget
    &&& row.time_cost == sum(cost_totals(rows_of(time, p.project_id)))
    &&& row.expense_cost == sum(cost_totals(rows_of(exp, p.project_id)))
    &&& row.bill_cost == 0
    &&& row.total_actual == row.time_cost + row.expense_cost
    &&& row.variance == row.budget - row.total_actual
    &&& cost_code_breakdown(
        rows_of(time, p.project_id) + rows_of(exp, p.project_id),
        row.cost_codes@,
    )
}

/// A value fits in an `i64`.
pub open spec fn fits_i64(v: int) -> bool {
    i64::MIN <= v <= i64::MAX
}

/// Every figure computed for project `p` fits: the running sums of its time and of its
/// expense rows, its actual cost and variance, and each cost code's running sum as the
/// project's rows (time first, then expenses) are added in turn.
pub open spec fn project_fits(time: Seq<CostRow>, exp: Seq<CostRow>, p: ProjectBudget) -> bool {
    let t = rows_of(time, p.project_id);
    let e = rows_of(exp, p.project_id);
    &&& prefix_sums_fit(cost_totals(t))
    &&& prefix_sums_fit(cost_totals(e))
    &&& fits_i64(project_cost(time, exp, p.project_id))
    &&& fits_i64(p.budget - project_cost(time, exp, p.project_id))
    &&& forall|j: int, k: Option<u128>|
        0 <= j <= t.len() + e.len() ==> fits_i64(#[trigger] code_group((t + e).take(j), k).3)
}

/// Every sum the report computes stays within 64 bits: each project's figures, and the
/// running budget and actual totals over the projects listed, and their difference.
pub open spec fn costing_fits(ps: Seq<ProjectBudget>, time: Seq<CostRow>, exp: Seq<CostRow>) -> bool {
    let kept = kept_projects(ps, time, exp);
    &&& forall|i: int| 0 <= i < ps.len() ==> project_fits(time, exp, #[trigger] ps[i])
    &&& prefix_sums_fit(budgets(kept))
    &&& prefix_sums_fit(project_costs(kept, time, exp))
    &&& fits_i64(sum(budgets(kept)) - sum(project_costs(kept, time, exp)))
}

// ── lemmas ─────────────────────────────────────────────────────────────────────

proof fn lemma_rows_of_take(rows: Seq<CostRow>, pid: u128, i: int)
    requires
        0 <= i < rows.len(),
    ensures
        rows_of(rows.take(i + 1), pid) == if rows[i].project_id == pid {
            rows_of(rows.take(i), pid).push(rows[i])
        } else {
            rows_of(rows.take(i), pid)
        },
{
    assert(rows.take(i + 1).drop_last() =~= rows.take(i));
}

/// The rows of a project in a prefix of the rows are a prefix of the project's rows.
proof fn lemma_rows_of_prefix(rows: Seq<CostRow>, pid: u128, j: int) -> (m: int)
    requires
        0 <= j <= rows.len(),
    ensures
        0 <= m <= rows_of(rows, pid).len(),
        rows_of(rows, pid).take(m) == rows_of(rows.take(j), pid),
    decreases rows.len(),
{
    if j == rows.len() {
        assert(rows.take(j) =~= rows);
        assert(rows_of(rows, pid).take(rows_of(rows, pid).len() as int) =~= rows_of(rows, pid));
        rows_of(rows, pid).len() as int
    } else {
        let rest = rows.drop_last();
        assert(rows.take(j) =~= rest.take(j));
        let m = lemma_rows_of_prefix(rest, pid, j);
        assert(rows_of(rows, pid).take(m) =~= rows_of(rest, pid).take(m));
        m
    }
}

/// The projects kept from a prefix of the projects are a prefix of the projects kept.
proof fn lemma_kept_prefix(ps: Seq<ProjectBudget>, time: Seq<CostRow>, exp: Seq<CostRow>, j: int) -> (m: int)
    requires
        0 <= j <= ps.len(),
    ensures
        0 <= m <= kept_projects(ps, time, exp).len(),
        kept_projects(ps, time, exp).take(m) == kept_projects(ps.take(j), time, exp),
    decreases ps.len(),
{
    if j == ps.len() {
        assert(ps.take(j) =~= ps);
        let k = kept_projects(ps, time, exp);
        assert(k.take(k.len() as int) =~= k);
        k.len() as int
    } else {
        let rest = ps.drop_last();
        assert(ps.take(j) =~= rest.take(j));
        let m = lemma_kept_prefix(rest, time, exp, j);
        assert(kept_projects(ps, time, exp).take(m) =~= kept_projects(rest, time, exp).take(m));
        m
    }
}

proof fn lemma_has_code_push(rows: Seq<CostRow>, r: CostRow, k: Option<u128>)
    ensures
        has_code(rows.push(r), k) == (has_code(rows, k) || r.cost_code_id == k),
{
    if has_code(rows, k) {
        let i = choose|i: int| 0 <= i < rows.len() && #[trigger] rows[i].cost_code_id == k;
        assert(rows.push(r)[i].cost_code_id == k);
    }
    if r.cost_code_id == k {
        assert(rows.push(r)[rows.len() as int].cost_code_id == k);
    }
    if has_code(rows.push(r), k) {
        let i = choose|i: int|
            0 <= i < rows.push(r).len() && #[trigger] rows.push(r)[i].cost_code_id == k;
        if i < rows.len() {
            assert(rows[i].cost_code_id == k);
        }
    }
}

/// Adding a row whose cost code already has a line: that line grows by the row's amount.
proof fn lemma_breakdown_update(
    rows: Seq<CostRow>,
    codes: Seq<CostCodeTotal>,
    r: CostRow,
    j: int,
    c: CostCodeTotal,
)
    requires
        cost_code_breakdown(rows, codes),
        0 <= j < codes.len(),
        codes[j].cost_code_id == r.cost_code_id,
        c.cost_code_id == codes[j].cost_code_id,
        c.cost_code@ == codes[j].cost_code@,
        c.cost_code_name@ == codes[j].cost_code_name@,
        c.cost_type@ == codes[j].cost_type@,
        c.actual_cost == codes[j].actual_cost + r.total,
    ensures
        cost_code_breakdown(rows.push(r), codes.update(j, c)),
{
    let rows2 = rows.push(r);
    let codes2 = codes.update(j, c);
    assert(rows2.drop_last() =~= rows);
    assert forall|i: int| 0 <= i < codes2.len() implies has_code(
        rows2,
        #[trigger] codes2[i].cost_code_id,
    ) && code_line_is(codes2[i], code_group(rows2, codes2[i].cost_code_id)) by {
        lemma_has_code_push(rows, r, codes2[i].cost_code_id);
        assert(has_code(rows, codes[i].cost_code_id));
    }
    assert forall|i: int| 0 <= i < rows2.len() implies exists|t: int|
        0 <= t < codes2.len() && codes2[t].cost_code_id == #[trigger] rows2[i].cost_code_id by {
        if i < rows.len() {
            assert(rows2[i] == rows[i]);
            let t = choose|t: int|
                0 <= t < codes.len() && codes[t].cost_code_id == #[trigger] rows[i].cost_code_id;
            assert(codes2[t].cost_code_id == rows2[i].cost_code_id);
        } else {
            assert(codes2[j].cost_code_id == rows2[i].cost_code_id);
        }
    }
}

/// Adding a row with a new cost code: a new line is inserted where the order by code keeps.
proof fn lemma_breakdown_insert(
    rows: Seq<CostRow>,
    codes: Seq<CostCodeTotal>,
    r: CostRow,
    p: int,
    c: CostCodeTotal,
)
    requires
        cost_code_breakdown(rows, codes),
        forall|t: int| 0 <= t < codes.len() ==> #[trigger] codes[t].cost_code_id != r.cost_code_id,
        0 <= p <= codes.len(),
        forall|t: int| 0 <= t < p ==> !chars_lt(c.cost_code@, #[trigger] codes[t].cost_code@),
        p < codes.len() ==> chars_lt(c.cost_code@, codes[p].cost_code@),
        c.cost_code_id == r.cost_code_id,
        c.cost_code@ == label_or(r.cost_code, "uncoded"@),
        c.cost_code_name@ == label_or(r.cost_code_name, "Uncoded"@),
        c.cost_type@ == label_or(r.cost_type, "other"@),
        c.actual_cost == r.total,
    ensures
        cost_code_breakdown(rows.push(r), codes.insert(p, c)),
{
    let rows2 = rows.push(r);
    let codes2 = codes.insert(p, c);
    assert(rows2.drop_last() =~= rows);
    assert(!has_code(rows, r.cost_code_id)) by {
        if has_code(rows, r.cost_code_id) {
            let i = choose|i: int| 0 <= i < rows.len() && #[trigger] rows[i].cost_code_id == r.cost_code_id;
            let t = choose|t: int|
                0 <= t < codes.len() && codes[t].cost_code_id == #[trigger] rows[i].cost_code_id;
            assert(codes[t].cost_code_id != r.cost_code_id);
        }
    }
    assert forall|i: int| 0 <= i < codes2.len() implies has_code(
        rows2,
        #[trigger] codes2[i].cost_code_id,
    ) && code_line_is(codes2[i], code_group(rows2, codes2[i].cost_code_id)) by {
        lemma_has_code_push(rows, r, codes2[i].cost_code_id);
        if i < p {
            assert(codes2[i] == codes[i]);
            assert(has_code(rows, codes[i].cost_code_id));
        } else if i > p {
            assert(codes2[i] == codes[i - 1]);
            assert(has_code(rows, codes[i - 1].cost_code_id));
        }
    }
    assert forall|i: int, j: int| 0 <= i < j < codes2.len() implies codes2[i].cost_code_id
        != codes2[j].cost_code_id by {
        if i < p && j > p {
            assert(codes2[j] == codes[j - 1]);
        } else if i > p {
            assert(codes2[i] == codes[i - 1] && codes2[j] == codes[j - 1]);
        } else if i == p {
            assert(codes2[j] == codes[j - 1]);
        } else if j == p {
            assert(codes2[i] == codes[i]);
        }
    }
    assert forall|i: int| 0 <= i < rows2.len() implies exists|t: int|
        0 <= t < codes2.len() && codes2[t].cost_code_id == #[trigger] rows2[i].cost_code_id by {
        if i < rows.len() {
            assert(rows2[i] == rows[i]);
            let t = choose|t: int|
                0 <= t < codes.len() && codes[t].cost_code_id == #[trigger] rows[i].cost_code_id;
            if t < p {
                assert(codes2[t].cost_code_id == rows2[i].cost_code_id);
            } else {
                assert(codes2[t + 1].cost_code_id == rows2[i].cost_code_id);
            }
        } else {
            assert(codes2[p].cost_code_id == rows2[i].cost_code_id);
        }
    }
    assert forall|i: int, j: int| 0 <= i < j < codes2.len() implies chars_le(
        codes2[i].cost_code@,
        codes2[j].cost_code@,
    ) by {
        if j < p {
            assert(codes2[i] == codes[i] && codes2[j] == codes[j]);
        } else if i > p {
            assert(codes2[i] == codes[i - 1] && codes2[j] == codes[j - 1]);
        } else if i < p && j > p {
            assert(codes2[i] == codes[i] && codes2[j] == codes[j - 1]);
            lemma_chars_lt_total(c.cost_code@, codes[i].cost_code@);
            if p < j - 1 {
                assert(chars_le(codes[p].cost_code@, codes[j - 1].cost_code@));
            }
            lemma_chars_le_transitive(codes[i].cost_code@, c.cost_code@, codes[p].cost_code@);
            lemma_chars_le_transitive(codes[i].cost_code@, codes[p].cost_code@, codes[j - 1].cost_code@);
        } else if i == p {
            assert(codes2[j] == codes[j - 1]);
            if p < j - 1 {
                assert(chars_le(codes[p].cost_code@, codes[j - 1].cost_code@));
            }
            lemma_chars_le_transitive(c.cost_code@, codes[p].cost_code@, codes[j - 1].cost_code@);
        } else {
            assert(j == p);
            assert(codes2[i] == codes[i]);
            lemma_chars_lt_total(c.cost_code@, codes[i].cost_code@);
        }
    }
}

} // verus!

verus! {

// ── computation ────────────────────────────────────────────────────────────────

proof fn lemma_cost_totals_concat(a: Seq<CostRow>, b: Seq<CostRow>)
    ensures
        cost_totals(a + b) == cost_totals(a) + cost_totals(b),
{
    assert(cost_totals(a + b) =~= cost_totals(a) + cost_totals(b));
}

proof fn lemma_cost_totals_push(a: Seq<CostRow>, r: CostRow)
    ensures
        cost_totals(a.push(r)) == cost_totals(a).push(r.total as int),
{
    assert(cost_totals(a.push(r)) =~= cost_totals(a).push(r.total as int));
}

fn opt_id_eq(a: Option<u128>, b: Option<u128>) -> (r: bool)
    ensures
        r == (a == b),
{
    match (a, b) {
        (Some(x), Some(y)) => x == y,
        (None, None) => true,
        _ => false,
    }
}

fn label_string(s: &Option<String>, default: &str) -> (r: String)
    ensures
        r@ == label_or(*s, default@),
{
    match s {
        Some(x) => x.clone(),
        None => String::from_str(default),
    }
}

fn find_code(codes: &Vec<CostCodeTotal>, k: Option<u128>) -> (r: Option<usize>)
    ensures
        r matches Some(j) ==> j < codes.len() && codes@[j as int].cost_code_id == k,
        r is None ==> forall|t: int| 0 <= t < codes.len() ==> #[trigger] codes@[t].cost_code_id != k,
{
    let mut j: usize = 0;
    while j < codes.len()
        invariant
            j <= codes.len(),
            forall|t: int| 0 <= t < j ==> #[trigger] codes@[t].cost_code_id != k,
        decreases codes.len() - j,
    {
        if opt_id_eq(codes[j].cost_code_id, k) {
            return Some(j);
        }
        j = j + 1;
    }
    None
}

/// Adds one cost row to a project's cost-code breakdown.
fn add_cost_row(codes: &mut Vec<CostCodeTotal>, r: &CostRow, Ghost(rows): Ghost<Seq<CostRow>>)
    requires
        cost_code_breakdown(rows, old(codes)@),
        sum(code_actuals(old(codes)@)) == sum(cost_totals(rows)),
        fits_i64(code_group(rows.push(*r), r.cost_code_id).3),
    ensures
        cost_code_breakdown(rows.push(*r), final(codes)@),
        sum(code_actuals(final(codes)@)) == sum(cost_totals(rows.push(*r))),
{
    proof {
        lemma_cost_totals_push(rows, *r);
        crate::seqs::lemma_sum_push(cost_totals(rows), r.total as int);
        assert(rows.push(*r).drop_last() =~= rows);
    }
    let ghost before = codes@;
    match find_code(codes, r.cost_code_id) {
        Some(j) => {
            proof {
                assert(has_code(rows, codes@[j as int].cost_code_id));
            }
            let old_c = codes.remove(j);
            let c = CostCodeTotal {
                cost_code_id: old_c.cost_code_id,
                cost_code: old_c.cost_code,
                cost_code_name: old_c.cost_code_name,
                cost_type: old_c.cost_type,
                actual_cost: old_c.actual_cost + r.total,
            };
            let ghost cv = c;
            codes.insert(j, c);
            proof {
                assert(codes@ =~= before.update(j as int, cv));
                lemma_breakdown_update(rows, before, *r, j as int, cv);
                assert(code_actuals(codes@) =~= code_actuals(before).update(
                    j as int,
                    cv.actual_cost as int,
                ));
                lemma_sum_update(code_actuals(before), j as int, cv.actual_cost as int);
            }
        },
        None => {
            let code = label_string(&r.cost_code, "uncoded");
            let name = label_string(&r.cost_code_name, "Uncoded");
            let ty = label_string(&r.cost_type, "other");
            let mut p: usize = 0;
            while p < codes.len() && !str_lt(code.as_str(), codes[p].cost_code.as_str())
                invariant
                    p <= codes.len(),
                    forall|t: int| 0 <= t < p ==> !chars_lt(code@, #[trigger] codes@[t].cost_code@),
                decreases codes.len() - p,
            {
                p = p + 1;
            }
            let c = CostCodeTotal {
                cost_code_id: r.cost_code_id,
                cost_code: code,
                cost_code_name: name,
                cost_type: ty,
                actual_cost: r.total,
            };
            let ghost cv = c;
            codes.insert(p, c);
            proof {
                lemma_breakdown_insert(rows, before, *r, p as int, cv);
                assert(code_actuals(codes@) =~= code_actuals(before).insert(
                    p as int,
                    cv.actual_cost as int,
                ));
                lemma_sum_insert(code_actuals(before), p as int, cv.actual_cost as int);
            }
        },
    }
}

/// Every cost code's running sum fits as the rows of `all` are added in turn.
pub open spec fn code_sums_fit(all: Seq<CostRow>) -> bool {
    forall|j: int, k: Option<u128>| 0 <= j <= all.len() ==> fits_i64(#[trigger] code_group(all.take(j), k).3)
}

/// Adds the rows of `src` that belong to project `pid` to its cost-code breakdown.
fn add_project_rows(
    src: &Vec<CostRow>,
    pid: u128,
    codes: &mut Vec<CostCodeTotal>,
    Ghost(prior): Ghost<Seq<CostRow>>,
)
    requires
        cost_code_breakdown(prior, old(codes)@),
        sum(code_actuals(old(codes)@)) == sum(cost_totals(prior)),
        code_sums_fit(prior + rows_of(src@, pid)),
    ensures
        cost_code_breakdown(prior + rows_of(src@, pid), final(codes)@),
        sum(code_actuals(final(codes)@)) == sum(cost_totals(prior + rows_of(src@, pid))),
{
    let n = src.len();
    let mut i: usize = 0;
    while i < n
        invariant
            n == src.len(),
            i <= n,
            code_sums_fit(prior + rows_of(src@, pid)),
            cost_code_breakdown(prior + rows_of(src@.take(i as int), pid), codes@),
            sum(code_actuals(codes@)) == sum(cost_totals(prior + rows_of(src@.take(i as int), pid))),
        decreases n - i,
    {
        let ghost acc = prior + rows_of(src@.take(i as int), pid);
        proof {
            lemma_rows_of_take(src@, pid, i as int);
        }
        if src[i].project_id == pid {
            proof {
                let x = rows_of(src@.take(i + 1), pid);
                let whole = prior + rows_of(src@, pid);
                assert(acc.push(src@[i as int]) =~= prior + x);
                let m = lemma_rows_of_prefix(src@, pid, i + 1);
                assert(prior + x =~= whole.take(prior.len() + m));
                assert(fits_i64(code_group(whole.take(prior.len() + m), src@[i as int].cost_code_id).3));
            }
            add_cost_row(codes, &src[i], Ghost(acc));
        }
        i = i + 1;
    }
    proof {
        assert(src@.take(n as int) =~= src@);
    }
}

/// Sum of the amounts of the rows of `src` that belong to project `pid`.
fn project_total(src: &Vec<CostRow>, pid: u128) -> (r: i64)
    requires
        prefix_sums_fit(cost_totals(rows_of(src@, pid))),
    ensures
        r == sum(cost_totals(rows_of(src@, pid))),
{
    let n = src.len();
    let mut t: i64 = 0;
    let mut i: usize = 0;
    while i < n
        invariant
            n == src.len(),
            i <= n,
            prefix_sums_fit(cost_totals(rows_of(src@, pid))),
            t == sum(cost_totals(rows_of(src@.take(i as int), pid))),
        decreases n - i,
    {
        proof {
            lemma_rows_of_take(src@, pid, i as int);
        }
        if src[i].project_id == pid {
            proof {
                lemma_cost_totals_push(rows_of(src@.take(i as int), pid), src@[i as int]);
                crate::seqs::lemma_sum_push(
                    cost_totals(rows_of(src@.take(i as int), pid)),
                    src@[i as int].total as int,
                );
                let m = lemma_rows_of_prefix(src@, pid, i + 1);
                let all = rows_of(src@, pid);
                assert(cost_totals(all.take(m)) =~= cost_totals(all).take(m));
                assert(fits_i64(sum(cost_totals(all).take(m))));
            }
            t = t + src[i].total;
        }
        i = i + 1;
    }
    proof {
        assert(src@.take(n as int) =~= src@);
    }
    t
}

} // verus!

verus! {

proof fn lemma_kept_take(ps: Seq<ProjectBudget>, time: Seq<CostRow>, exp: Seq<CostRow>, i: int)
    requires
        0 <= i < ps.len(),
    ensures
        kept_projects(ps.take(i + 1), time, exp) == if project_cost(time, exp, ps[i].project_id)
            > 0 || ps[i].budget > 0 {
            kept_projects(ps.take(i), time, exp).push(ps[i])
        } else {
            kept_projects(ps.take(i), time, exp)
        },
{
    assert(ps.take(i + 1).drop_last() =~= ps.take(i));
}

impl ReportRepo {
    /// Job costing: for every project with a positive actual cost or budget, its time and
    /// expense cost, variance against budget and cost-code breakdown, with report totals.
    pub fn job_costing(
        from: CalDate,
        to: CalDate,
        projects: &Vec<ProjectBudget>,
        time_costs: &Vec<CostRow>,
        expense_costs: &Vec<CostRow>,
    ) -> (r: JobCostingReport)
        requires
            costing_fits(projects@, time_costs@, expense_costs@),
        ensures
            ({
                let kept = kept_projects(projects@, time_costs@, expense_costs@);
                &&& r.from == from
                &&& r.to == to
                &&& r.rows.len() == kept.len()
                &&& forall|i: int|
                    0 <= i < r.rows.len() ==> job_row_is(
                        kept[i],
                        time_costs@,
                        expense_costs@,
                        #[trigger] r.rows@[i],
                    )
                &&& forall|i: int|
                    0 <= i < r.rows.len() ==> sum(code_actuals(#[trigger] r.rows@[i].cost_codes@))
                        == r.rows@[i].total_actual
                &&& r.total_budget == sum(budgets(kept))
                &&& r.total_actual == sum(project_costs(kept, time_costs@, expense_costs@))
                &&& r.total_variance == r.total_budget - r.total_actual
            }),
    {
        let ghost time = time_costs@;
        let ghost exp = expense_costs@;
        let n = projects.len();
        let mut rows: Vec<JobCostingRow> = Vec::new();
        let mut total_budget: i64 = 0;
        let mut total_actual: i64 = 0;
        let mut i: usize = 0;
        while i < n
            invariant
                n == projects.len(),
                i <= n,
                time == time_costs@,
                exp == expense_costs@,
                costing_fits(projects@, time, exp),
                rows.len() == kept_projects(projects@.take(i as int), time, exp).len(),
                forall|k: int|
                    0 <= k < rows.len() ==> job_row_is(
                        kept_projects(projects@.take(i as int), time, exp)[k],
                        time,
                        exp,
                        #[trigger] rows@[k],
                    ),
                forall|k: int|
                    0 <= k < rows.len() ==> sum(code_actuals(#[trigger] rows@[k].cost_codes@))
                        == rows@[k].total_actual,
                total_budget == sum(budgets(kept_projects(projects@.take(i as int), time, exp))),
                total_actual == sum(
                    project_costs(kept_projects(projects@.take(i as int), time, exp), time, exp),
                ),
            decreases n - i,
        {
            let p = &projects[i];
            let pid = p.project_id;
            proof {
                assert(project_fits(time, exp, projects@[i as int]));
                assert(rows_of(time, pid) + rows_of(exp, pid) =~= (Seq::<CostRow>::empty() + rows_of(
                    time,
                    pid,
                )) + rows_of(exp, pid));
                assert(code_sums_fit(rows_of(time, pid) + rows_of(exp, pid)));
                assert forall|j: int, k: Option<u128>|
                    0 <= j <= rows_of(time, pid).len() implies fits_i64(
                    #[trigger] code_group((Seq::<CostRow>::empty() + rows_of(time, pid)).take(j), k).3,
                ) by {
                    assert((Seq::<CostRow>::empty() + rows_of(time, pid)).take(j) =~= (rows_of(time, pid)
                        + rows_of(exp, pid)).take(j));
                }
            }
            let tc = project_total(time_costs, pid);
            let ec = project_total(expense_costs, pid);
            let actual = tc + ec;
            let variance = p.budget - actual;
            let mut codes: Vec<CostCodeTotal> = Vec::new();
            proof {
                assert(cost_totals(Seq::<CostRow>::empty()) =~= Seq::<int>::empty());
                assert(code_actuals(codes@) =~= Seq::<int>::empty());
            }
            add_project_rows(time_costs, pid, &mut codes, Ghost(Seq::<CostRow>::empty()));
            proof {
                assert(Seq::<CostRow>::empty() + rows_of(time, pid) =~= rows_of(time, pid));
            }
            add_project_rows(expense_costs, pid, &mut codes, Ghost(rows_of(time, pid)));
            proof {
                lemma_cost_totals_concat(rows_of(time, pid), rows_of(exp, pid));
                lemma_sum_concat(cost_totals(rows_of(time, pid)), cost_totals(rows_of(exp, pid)));
                lemma_kept_take(projects@, time, exp, i as int);
            }
            let ghost kept_before = kept_projects(projects@.take(i as int), time, exp);
            if actual > 0 || p.budget > 0 {
                let row = JobCostingRow {
                    project_id: pid,
                    project_name: p.project_name.clone(),
                    budget: p.budget,
                    time_cost: tc,
                    expense_cost: ec,
                    bill_cost: 0,
                    total_actual: actual,
                    variance,
                    cost_codes: codes,
                };
                rows.push(row);
                proof {
                    let m = lemma_kept_prefix(projects@, time, exp, i + 1);
                    let kept = kept_projects(projects@, time, exp);
                    let kb1 = kept_before.push(projects@[i as int]);
                    assert(budgets(kept.take(m)) =~= budgets(kept).take(m));
                    assert(project_costs(kept.take(m), time, exp) =~= project_costs(kept, time, exp).take(m));
                    assert(fits_i64(sum(budgets(kb1))));
                    assert(fits_i64(sum(project_costs(kb1, time, exp))));
                    crate::seqs::lemma_map_push(kept_before, |q: ProjectBudget| q.budget as int, projects@[i as int]);
                    crate::seqs::lemma_sum_push(budgets(kept_before), projects@[i as int].budget as int);
                    crate::seqs::lemma_map_push(
                        kept_before,
                        |q: ProjectBudget| project_cost(time, exp, q.project_id),
                        projects@[i as int],
                    );
                    crate::seqs::lemma_sum_push(
                        project_costs(kept_before, time, exp),
                        project_cost(time, exp, projects@[i as int].project_id),
                    );
                }
                total_budget = total_budget + p.budget;
                total_actual = total_actual + actual;
                proof {
                    let pv = projects@[i as int];
                    crate::seqs::lemma_map_push(
                        kept_before,
                        |q: ProjectBudget| q.budget as int,
                        pv,
                    );
                    crate::seqs::lemma_sum_push(budgets(kept_before), pv.budget as int);
                    crate::seqs::lemma_map_push(
                        kept_before,
                        |q: ProjectBudget| project_cost(time, exp, q.project_id),
                        pv,
                    );
                    crate::seqs::lemma_sum_push(
                        project_costs(kept_before, time, exp),
                        project_cost(time, exp, pv.project_id),
                    );
                }
            }
            i = i + 1;
        }
        proof {
            assert(projects@.take(n as int) =~= projects@);
        }
        JobCostingReport {
            from,
            to,
            rows,
            total_budget,
            total_actual,
            total_variance: total_budget - total_actual,
        }
    }
}

} // verus!
