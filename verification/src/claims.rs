//! Progress claims on construction projects: claim limits, retainage, its release and the
//! billing report.
use vstd::prelude::*;

use crate::error::{Conflict, DbError};
use crate::recurring::div_trunc;
use crate::sales_orders::line_net;
use crate::seqs::{lemma_sum_push, prefix_sums_fit, sum};
use crate::text::str_eq;

verus! {

/// The retainage withheld from a claim: `claim × retainage_pct / 10 000`, truncated.
pub open spec fn retainage_of(claim_amount: int, retainage_pct: int) -> int {
    div_trunc(claim_amount * retainage_pct, 10_000)
}

/// The invoice line a claim or release is billed with: a quantity of one (100
/// hundredths) at `amount`.
pub struct ClaimInvoiceLine {
    pub quantity: i64,
    pub unit_price: i64,
}

/// A project's figures for the billing report.
pub struct ProjectBilling {
    pub project_id: u128,
    pub project_name: String,
    pub billing_method: String,
    pub contract_amount: i64,
    pub billed_amount: i64,
    pub retainage_held: i64,
}

/// A line of the billing report.
pub struct ProjectBillingRow {
    pub project_id: u128,
    pub project_name: String,
    pub billing_method: String,
    pub contract_amount: i64,
    pub billed_amount: i64,
    pub retainage_held: i64,
    pub unbilled_amount: i64,
}

/// The billing report across projects.
pub struct ProjectBillingReport {
    pub rows: Vec<ProjectBillingRow>,
    pub total_contract: i64,
    pub total_billed: i64,
    pub total_retainage: i64,
    pub total_unbilled: i64,
}

/// Contract amounts.
pub open spec fn contracts(rs: Seq<ProjectBilling>) -> Seq<int> {
    rs.map_values(|r: ProjectBilling| r.contract_amount as int)
}

/// Billed amounts.
pub open spec fn billed(rs: Seq<ProjectBilling>) -> Seq<int> {
    rs.map_values(|r: ProjectBilling| r.billed_amount as int)
}

/// Retainage held.
pub open spec fn retained(rs: Seq<ProjectBilling>) -> Seq<int> {
    rs.map_values(|r: ProjectBilling| r.retainage_held as int)
}

/// Unbilled amounts: contract less billed.
pub open spec fn unbilled(rs: Seq<ProjectBilling>) -> Seq<int> {
    rs.map_values(|r: ProjectBilling| r.contract_amount - r.billed_amount)
}

/// The report's sums never overflow.
pub open spec fn billing_fits(rs: Seq<ProjectBilling>) -> bool {
    &&& prefix_sums_fit(contracts(rs))
    &&& prefix_sums_fit(billed(rs))
    &&& prefix_sums_fit(retained(rs))
    &&& prefix_sums_fit(unbilled(rs))
    &&& forall|i: int|
        0 <= i < rs.len() ==> i64::MIN <= (#[trigger] rs[i]).contract_amount - rs[i].billed_amount
            <= i64::MAX
}

/// Progress claims.
pub struct ProgressClaimRepo;

impl ProgressClaimRepo {
    /// The claimed percentages (in hundredths of a percent) of a project may add up to at
    /// most 100%.
    pub fn check_claim_pct(existing_pct: i64, claim_pct: i64) -> (r: Result<(), DbError>)
        requires
            i64::MIN <= existing_pct + claim_pct <= i64::MAX,
        ensures
            existing_pct + claim_pct <= 10_000 ==> r is Ok,
            existing_pct + claim_pct > 10_000 ==> r == Err::<(), DbError>(
                DbError::Conflict(
                    Conflict::ClaimExceedsContract {
                        claimed_pct: div_trunc(existing_pct as int, 100) as i64,
                        requested_pct: div_trunc(claim_pct as int, 100) as i64,
                    },
                ),
            ),
    {
        if existing_pct + claim_pct > 10_000 {
            return Err(
                DbError::Conflict(
                    Conflict::ClaimExceedsContract {
                        claimed_pct: existing_pct / 100,
                        requested_pct: claim_pct / 100,
                    },
                ),
            );
        }
        Ok(())
    }

    /// Splits a claim into the retainage withheld and the net amount billed.
    pub fn claim_split(claim_amount: i64, retainage_pct: i64) -> (r: (i64, i64))
        requires
            i64::MIN <= claim_amount * retainage_pct <= i64::MAX,
            i64::MIN <= claim_amount - retainage_of(claim_amount as int, retainage_pct as int)
                <= i64::MAX,
        ensures
            r.0 == retainage_of(claim_amount as int, retainage_pct as int),
            r.1 == claim_amount - r.0,
    {
        let retainage = claim_amount * retainage_pct / 10_000;
        (retainage, claim_amount - retainage)
    }

    /// Only approved claims can be invoiced, and only to a project with a contact; the
    /// invoice has one line for the claim's net amount.
    pub fn plan_invoice(status: &str, has_contact: bool, net_amount: i64) -> (r: Result<
        ClaimInvoiceLine,
        DbError,
    >)
        ensures
            status@ != "approved"@ ==> r == Err::<ClaimInvoiceLine, DbError>(
                DbError::Conflict(Conflict::ClaimNotApproved),
            ),
            status@ == "approved"@ && !has_contact ==> r == Err::<ClaimInvoiceLine, DbError>(
                DbError::Conflict(Conflict::ProjectHasNoContact),
            ),
            status@ == "approved"@ && has_contact ==> (r matches Ok(l) && l.quantity == 100
                && l.unit_price == net_amount),
    {
        if !str_eq(status, "approved") {
            return Err(DbError::Conflict(Conflict::ClaimNotApproved));
        }
        if !has_contact {
            return Err(DbError::Conflict(Conflict::ProjectHasNoContact));
        }
        Ok(ClaimInvoiceLine { quantity: 100, unit_price: net_amount })
    }

    /// Retainage is released once per project, when some is held, to a project with a
    /// contact: one invoice line for all of it.
    pub fn plan_release(already_released: bool, total_retainage: i64, has_contact: bool) -> (r:
        Result<ClaimInvoiceLine, DbError>)
        ensures
            already_released ==> r == Err::<ClaimInvoiceLine, DbError>(
                DbError::Conflict(Conflict::RetainageAlreadyReleased),
            ),
            !already_released && total_retainage == 0 ==> r == Err::<ClaimInvoiceLine, DbError>(
                DbError::Conflict(Conflict::NoRetainage),
            ),
            !already_released && total_retainage != 0 && !has_contact ==> r == Err::<
                ClaimInvoiceLine,
                DbError,
            >(DbError::Conflict(Conflict::ProjectHasNoContact)),
            !already_released && total_retainage != 0 && has_contact ==> (r matches Ok(l)
                && l.quantity == 100 && l.unit_price == total_retainage),
    {
        if already_released {
            return Err(DbError::Conflict(Conflict::RetainageAlreadyReleased));
        }
        if total_retainage == 0 {
            return Err(DbError::Conflict(Conflict::NoRetainage));
        }
        if !has_contact {
            return Err(DbError::Conflict(Conflict::ProjectHasNoContact));
        }
        Ok(ClaimInvoiceLine { quantity: 100, unit_price: total_retainage })
    }

    /// The billing report: each project's unbilled amount (contract less billed) and the
    /// totals of every column.
    pub fn billing_report(projects: &Vec<ProjectBilling>) -> (r: ProjectBillingReport)
        requires
            billing_fits(projects@),
        ensures
            r.rows.len() == projects.len(),
            forall|i: int|
                0 <= i < projects.len() ==> {
                    let p = projects@[i];
                    let row = #[trigger] r.rows@[i];
                    &&& row.project_id == p.project_id
                    &&& row.project_name@ == p.project_name@
                    &&& row.billing_method@ == p.billing_method@
                    &&& row.contract_amount == p.contract_amount
                    &&& row.billed_amount == p.billed_amount
                    &&& row.retainage_held == p.retainage_held
                    &&& row.unbilled_amount == p.contract_amount - p.billed_amount
                },
            r.total_contract == sum(contracts(projects@)),
            r.total_billed == sum(billed(projects@)),
            r.total_retainage == sum(retained(projects@)),
            r.total_unbilled == sum(unbilled(projects@)),
    {
        let ghost ps = projects@;
        let mut rows: Vec<ProjectBillingRow> = Vec::new();
        let mut tc: i64 = 0;
        let mut tb: i64 = 0;
        let mut tr: i64 = 0;
        let mut tu: i64 = 0;
        let mut i: usize = 0;
        while i < projects.len()
            invariant
                i <= projects.len(),
                ps == projects@,
                billing_fits(ps),
                rows.len() == i,
                forall|k: int|
                    0 <= k < i ==> {
                        let p = ps[k];
                        let row = #[trigger] rows@[k];
                        &&& row.project_id == p.project_id
                        &&& row.project_name@ == p.project_name@
                        &&& row.billing_method@ == p.billing_method@
                        &&& row.contract_amount == p.contract_amount
                        &&& row.billed_amount == p.billed_amount
                        &&& row.retainage_held == p.retainage_held
                        &&& row.unbilled_amount == p.contract_amount - p.billed_amount
                    },
                tc == sum(contracts(ps).take(i as int)),
                tb == sum(billed(ps).take(i as int)),
                tr == sum(retained(ps).take(i as int)),
                tu == sum(unbilled(ps).take(i as int)),
            decreases projects.len() - i,
        {
            let p = &projects[i];
            proof {
                crate::seqs::lemma_sum_take_succ(contracts(ps), i as int);
                crate::seqs::lemma_sum_take_succ(billed(ps), i as int);
                crate::seqs::lemma_sum_take_succ(retained(ps), i as int);
                crate::seqs::lemma_sum_take_succ(unbilled(ps), i as int);
                assert(i64::MIN <= sum(contracts(ps).take(i + 1)) <= i64::MAX);
                assert(i64::MIN <= sum(billed(ps).take(i + 1)) <= i64::MAX);
                assert(i64::MIN <= sum(retained(ps).take(i + 1)) <= i64::MAX);
                assert(i64::MIN <= sum(unbilled(ps).take(i + 1)) <= i64::MAX);
                assert(i64::MIN <= ps[i as int].contract_amount - ps[i as int].billed_amount
                    <= i64::MAX);
            }
            let unbilled_amount = p.contract_amount - p.billed_amount;
            rows.push(
                ProjectBillingRow {
                    project_id: p.project_id,
                    project_name: p.project_name.clone(),
                    billing_method: p.billing_method.clone(),
                    contract_amount: p.contract_amount,
                    billed_amount: p.billed_amount,
                    retainage_held: p.retainage_held,
                    unbilled_amount,
                },
            );
            tc = tc + p.contract_amount;
            tb = tb + p.billed_amount;
            tr = tr + p.retainage_held;
            tu = tu + unbilled_amount;
            i = i + 1;
        }
        proof {
            crate::seqs::lemma_take_full(contracts(ps));
            crate::seqs::lemma_take_full(billed(ps));
            crate::seqs::lemma_take_full(retained(ps));
            crate::seqs::lemma_take_full(unbilled(ps));
        }
        ProjectBillingReport {
            rows,
            total_contract: tc,
            total_billed: tb,
            total_retainage: tr,
            total_unbilled: tu,
        }
    }
}

/// A claim's retainage and net amount add back up to the claim.
pub proof fn lemma_claim_split_adds_up(claim_amount: int, retainage_pct: int)
    ensures
        retainage_of(claim_amount, retainage_pct) + (claim_amount - retainage_of(
            claim_amount,
            retainage_pct,
        )) == claim_amount,
{
}

/// The release invoice bills exactly the retainage held: its single line of quantity one
/// at the retainage, undiscounted, is worth the retainage.
pub proof fn lemma_release_bills_retainage(total_retainage: int)
    ensures
        line_net(100, total_retainage, 0) == total_retainage,
{
    assert(100 * total_retainage == total_retainage * 100);
    assert(div_trunc(total_retainage * 100, 100) == total_retainage) by {
        if total_retainage >= 0 {
            assert((total_retainage * 100) / 100 == total_retainage) by (nonlinear_arith);
        } else {
            assert((-(total_retainage * 100)) / 100 == -total_retainage) by (nonlinear_arith);
        }
    }
}

/// In the billing report the unbilled total is the contract total less the billed total.
pub proof fn lemma_unbilled_total(rs: Seq<ProjectBilling>)
    ensures
        sum(unbilled(rs)) == sum(contracts(rs)) - sum(billed(rs)),
    decreases rs.len(),
{
    if rs.len() > 0 {
        lemma_unbilled_total(rs.drop_last());
        assert(unbilled(rs).drop_last() =~= unbilled(rs.drop_last()));
        assert(contracts(rs).drop_last() =~= contracts(rs.drop_last()));
        assert(billed(rs).drop_last() =~= billed(rs.drop_last()));
    }
}

} // verus!
