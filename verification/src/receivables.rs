//! Customer balances: payment plans, prepayments, retainers and saved payment methods.
use vstd::prelude::*;

use crate::error::{
    check_transition,
    refuse,
    status_refusal,
    status_view,
    transition_checked,
    Conflict,
    DbError,
};
use crate::seqs::{prefix_sums_fit, sum};
use crate::text::str_eq;

verus! {

// ── payment plans ──────────────────────────────────────────────────────────────

/// State of an installment after a payment.
#[derive(Debug, Clone, Copy, PartialEq, Eq, Structural)]
pub enum InstallmentStatus {
    Partial,
    Paid,
}

/// The outcome of paying an installment.
#[derive(Debug, Clone, Copy, PartialEq, Eq, Structural)]
pub struct InstallmentPayment {
    pub installment_paid: i64,
    pub installment_status: InstallmentStatus,
    pub plan_paid: i64,
    pub plan_completed: bool,
}

/// Payment plans for invoices.
pub struct PaymentPlanRepo;

impl PaymentPlanRepo {
    /// A plan's total: the sum of its installments, of which there must be at least one.
    pub fn plan_total(amounts: &Vec<i64>) -> (r: Result<i64, DbError>)
        requires
            prefix_sums_fit(amounts@.map_values(|a: i64| a as int)),
        ensures
            amounts.len() == 0 ==> r == Err::<i64, DbError>(DbError::Conflict(Conflict::NoInstallments)),
            amounts.len() > 0 ==> r == Ok::<i64, DbError>(
                sum(amounts@.map_values(|a: i64| a as int)) as i64,
            ),
    {
        if amounts.len() == 0 {
            return Err(DbError::Conflict(Conflict::NoInstallments));
        }
        let ghost s = amounts@.map_values(|a: i64| a as int);
        let mut t: i64 = 0;
        let mut i: usize = 0;
        while i < amounts.len()
            invariant
                i <= amounts.len(),
                s == amounts@.map_values(|a: i64| a as int),
                prefix_sums_fit(s),
                t == sum(s.take(i as int)),
            decreases amounts.len() - i,
        {
            proof {
                crate::seqs::lemma_sum_take_succ(s, i as int);
                assert(i64::MIN <= sum(s.take(i + 1)) <= i64::MAX);
            }
            t = t + amounts[i];
            i = i + 1;
        }
        proof {
            crate::seqs::lemma_take_full(s);
        }
        Ok(t)
    }

    /// Pays `amount` towards an installment (`installment` holds its amount and what was
    /// already paid): the amount must be positive and at most what remains; the
    /// installment is paid once fully covered, and the plan completes once its payments
    /// reach its total.
    pub fn pay_installment(
        installment: Option<(i64, i64)>,
        plan_paid: i64,
        plan_total: i64,
        amount: i64,
    ) -> (r: Result<InstallmentPayment, DbError>)
        requires
            installment matches Some(x) ==> (amount > 0 ==> i64::MIN <= x.0 - x.1 <= i64::MAX),
            installment matches Some(x) ==> (0 < amount <= x.0 - x.1 ==> plan_paid + amount
                <= i64::MAX),
        ensures
            amount <= 0 ==> r == Err::<InstallmentPayment, DbError>(
                DbError::Conflict(Conflict::NonPositiveAmount),
            ),
            amount > 0 && installment is None ==> r == Err::<InstallmentPayment, DbError>(
                DbError::NotFound,
            ),
            installment matches Some(x) ==> (amount > 0 && amount > x.0 - x.1 ==> r == Err::<
                InstallmentPayment,
                DbError,
            >(DbError::Conflict(Conflict::ExceedsRemaining { remaining: (x.0 - x.1) as i64 }))),
            installment matches Some(x) ==> (amount > 0 && amount <= x.0 - x.1 ==> (r matches Ok(p)
                && p.installment_paid == x.1 + amount && (p.installment_status
                == InstallmentStatus::Paid <==> x.1 + amount >= x.0) && p.plan_paid == plan_paid
                + amount && p.plan_completed == (plan_paid + amount >= plan_total))),
    {
        if amount <= 0 {
            return Err(DbError::Conflict(Conflict::NonPositiveAmount));
        }
        let (inst_amount, already_paid) = match installment {
            Some(x) => x,
            None => return Err(DbError::NotFound),
        };
        let remaining = inst_amount - already_paid;
        if amount > remaining {
            return Err(DbError::Conflict(Conflict::ExceedsRemaining { remaining }));
        }
        let new_paid = already_paid + amount;
        let status = if new_paid >= inst_amount {
            InstallmentStatus::Paid
        } else {
            InstallmentStatus::Partial
        };
        let new_plan_paid = plan_paid + amount;
        Ok(
            InstallmentPayment {
                installment_paid: new_paid,
                installment_status: status,
                plan_paid: new_plan_paid,
                plan_completed: new_plan_paid >= plan_total,
            },
        )
    }

    /// Only active plans can be cancelled.
    pub fn check_cancel(status: &str) -> (r: Result<(), DbError>)
        ensures
            r is Ok <==> status@ == "active"@,
            r matches Err(e) ==> status_refusal(e, "payment plan must be active to cancel"@),
    {
        if str_eq(status, "active") {
            Ok(())
        } else {
            Err(refuse("payment plan must be active to cancel"))
        }
    }
}

/// Paying never overpays an installment: after any accepted payment, what was paid is
/// still at most the installment's amount.
pub proof fn lemma_installment_never_overpaid(inst_amount: int, already_paid: int, amount: int)
    requires
        0 < amount <= inst_amount - already_paid,
    ensures
        already_paid + amount <= inst_amount,
{
}

// ── prepayments ────────────────────────────────────────────────────────────────

/// Application state of a prepayment.
#[derive(Debug, Clone, Copy, PartialEq, Eq, Structural)]
pub enum PrepaymentState {
    PartiallyApplied,
    FullyApplied,
}

/// Customer prepayments.
pub struct PrepaymentRepo;

impl PrepaymentRepo {
    /// Only available prepayments can be voided.
    pub fn check_void(current: Option<&str>) -> (r: Result<(), DbError>)
        ensures
            transition_checked(
                status_view(current),
                "available"@,
                "prepayment cannot be voided from status '"@,
                r,
            ),
    {
        check_transition(current, "available", "prepayment cannot be voided from status '")
    }

    /// Applies `amount` of a prepayment: it must not be voided, and the amount may not
    /// exceed what remains; returns the new applied amount and state.
    pub fn apply(
        status: &str,
        prepayment_amount: i64,
        applied_amount: i64,
        remaining_amount: i64,
        amount: i64,
    ) -> (r: Result<(i64, PrepaymentState), DbError>)
        requires
            status@ != "voided"@ && remaining_amount >= amount ==> i64::MIN <= applied_amount
                + amount <= i64::MAX,
        ensures
            status@ == "voided"@ ==> (r matches Err(e) && status_refusal(
                e,
                "prepayment is voided"@,
            )),
            status@ != "voided"@ && remaining_amount < amount ==> r == Err::<
                (i64, PrepaymentState),
                DbError,
            >(
                DbError::Conflict(
                    Conflict::ApplyExceedsRemaining { amount, remaining: remaining_amount },
                ),
            ),
            status@ != "voided"@ && remaining_amount >= amount ==> (r matches Ok(x) && x.0
                == applied_amount + amount && (x.1 == PrepaymentState::FullyApplied <==> x.0
                >= prepayment_amount)),
    {
        if str_eq(status, "voided") {
            return Err(refuse("prepayment is voided"));
        }
        if remaining_amount < amount {
            return Err(
                DbError::Conflict(
                    Conflict::ApplyExceedsRemaining { amount, remaining: remaining_amount },
                ),
            );
        }
        let new_applied = applied_amount + amount;
        let state = if new_applied >= prepayment_amount {
            PrepaymentState::FullyApplied
        } else {
            PrepaymentState::PartiallyApplied
        };
        Ok((new_applied, state))
    }
}

// ── retainers ──────────────────────────────────────────────────────────────────

/// Client retainers.
pub struct RetainerRepo;

impl RetainerRepo {
    /// Applies `amount` of a retainer to an invoice: the retainer must exist and hold at
    /// least the amount; returns the new balance.
    pub fn apply(balance: Option<i64>, amount: i64) -> (r: Result<i64, DbError>)
        requires
            balance matches Some(b) ==> i64::MIN <= b - amount <= i64::MAX,
        ensures
            balance is None ==> r == Err::<i64, DbError>(DbError::NotFound),
            balance matches Some(b) ==> (b < amount ==> r == Err::<i64, DbError>(
                DbError::Conflict(Conflict::InsufficientBalance),
            )),
            balance matches Some(b) ==> (b >= amount ==> r == Ok::<i64, DbError>(
                (b - amount) as i64,
            )),
    {
        let b = match balance {
            Some(b) => b,
            None => return Err(DbError::NotFound),
        };
        if b < amount {
            return Err(DbError::Conflict(Conflict::InsufficientBalance));
        }
        Ok(b - amount)
    }
}

// ── saved payment methods ──────────────────────────────────────────────────────

/// A contact's saved payment method.
#[derive(Debug, Clone, Copy, PartialEq, Eq, Structural)]
pub struct SavedMethod {
    pub id: u128,
    pub is_default: bool,
}

/// Payment types a method may have.
pub open spec fn is_payment_type(t: Seq<char>) -> bool {
    t == "card"@ || t == "bank_account"@ || t == "paypal"@
}

/// At most one method is the default.
pub open spec fn at_most_one_default(ms: Seq<SavedMethod>) -> bool {
    forall|i: int, j: int|
        0 <= i < ms.len() && 0 <= j < ms.len() && (#[trigger] ms[i]).is_default
            && (#[trigger] ms[j]).is_default ==> i == j
}

/// Methods saved by contacts in the customer portal, and autopay.
pub struct PortalPaymentMethodRepo;

impl PortalPaymentMethodRepo {
    /// Adds a method of an accepted payment type. A method added as default takes the
    /// default from the others; the first method of a contact is the default anyway.
    pub fn add(methods: &Vec<SavedMethod>, id: u128, payment_type: &str, is_default: bool) -> (r:
        Result<Vec<SavedMethod>, DbError>)
        ensures
            !is_payment_type(payment_type@) ==> r == Err::<Vec<SavedMethod>, DbError>(
                DbError::Conflict(Conflict::InvalidPaymentType),
            ),
            is_payment_type(payment_type@) ==> (r matches Ok(ms) && ms.len() == methods.len() + 1
                && ms@[methods.len() as int] == (SavedMethod {
                id,
                is_default: is_default || methods.len() == 0,
            }) && forall|i: int|
                0 <= i < methods.len() ==> (#[trigger] ms@[i]).id == methods@[i].id
                    && ms@[i].is_default == (methods@[i].is_default && !is_default)),
    {
        if !(str_eq(payment_type, "card") || str_eq(payment_type, "bank_account") || str_eq(
            payment_type,
            "paypal",
        )) {
            return Err(DbError::Conflict(Conflict::InvalidPaymentType));
        }
        let mut out: Vec<SavedMethod> = Vec::new();
        let mut i: usize = 0;
        while i < methods.len()
            invariant
                i <= methods.len(),
                out.len() == i,
                forall|a: int|
                    0 <= a < i ==> (#[trigger] out@[a]).id == methods@[a].id && out@[a].is_default
                        == (methods@[a].is_default && !is_default),
            decreases methods.len() - i,
        {
            let m = methods[i];
            out.push(SavedMethod { id: m.id, is_default: m.is_default && !is_default });
            i = i + 1;
        }
        let first = methods.len() == 0;
        out.push(SavedMethod { id, is_default: is_default || first });
        Ok(out)
    }

    /// Makes one of the contact's methods the default and every other one not; a method
    /// the contact does not have is not found.
    pub fn set_default(methods: &Vec<SavedMethod>, id: u128) -> (r: Result<
        Vec<SavedMethod>,
        DbError,
    >)
        ensures
            (forall|i: int| 0 <= i < methods.len() ==> (#[trigger] methods@[i]).id != id) ==> r
                == Err::<Vec<SavedMethod>, DbError>(DbError::NotFound),
            (exists|i: int| 0 <= i < methods.len() && (#[trigger] methods@[i]).id == id) ==> (r matches Ok(
                ms,
            ) && ms.len() == methods.len() && forall|i: int|
                0 <= i < methods.len() ==> (#[trigger] ms@[i]).id == methods@[i].id
                    && ms@[i].is_default == (methods@[i].id == id)),
    {
        let mut found = false;
        let mut out: Vec<SavedMethod> = Vec::new();
        let mut i: usize = 0;
        while i < methods.len()
            invariant
                i <= methods.len(),
                out.len() == i,
                found == exists|a: int| 0 <= a < i && (#[trigger] methods@[a]).id == id,
                forall|a: int|
                    0 <= a < i ==> (#[trigger] out@[a]).id == methods@[a].id && out@[a].is_default
                        == (methods@[a].id == id),
            decreases methods.len() - i,
        {
            let m = methods[i];
            if m.id == id {
                found = true;
            }
            out.push(SavedMethod { id: m.id, is_default: m.id == id });
            i = i + 1;
        }
        if !found {
            return Err(DbError::NotFound);
        }
        Ok(out)
    }
}

/// Adding a method keeps at most one default among a contact's methods.
pub proof fn lemma_add_keeps_one_default(
    methods: Seq<SavedMethod>,
    result: Seq<SavedMethod>,
    id: u128,
    is_default: bool,
)
    requires
        at_most_one_default(methods),
        result.len() == methods.len() + 1,
        result[methods.len() as int] == (SavedMethod {
            id,
            is_default: is_default || methods.len() == 0,
        }),
        forall|i: int|
            0 <= i < methods.len() ==> (#[trigger] result[i]).id == methods[i].id
                && result[i].is_default == (methods[i].is_default && !is_default),
    ensures
        at_most_one_default(result),
{
    assert forall|i: int, j: int|
        0 <= i < result.len() && 0 <= j < result.len() && (#[trigger] result[i]).is_default
            && (#[trigger] result[j]).is_default implies i == j by {
        if i < methods.len() && j < methods.len() {
            assert(methods[i].is_default && methods[j].is_default);
        }
    }
}

/// Setting a default leaves exactly that method as the default when the ids are
/// distinct.
pub proof fn lemma_set_default_unique(methods: Seq<SavedMethod>, result: Seq<SavedMethod>, id: u128)
    requires
        forall|i: int, j: int|
            0 <= i < j < methods.len() ==> (#[trigger] methods[i]).id != (#[trigger] methods[j]).id,
        result.len() == methods.len(),
        forall|i: int|
            0 <= i < methods.len() ==> (#[trigger] result[i]).id == methods[i].id
                && result[i].is_default == (methods[i].id == id),
    ensures
        at_most_one_default(result),
{
    assert forall|i: int, j: int|
        0 <= i < result.len() && 0 <= j < result.len() && (#[trigger] result[i]).is_default
            && (#[trigger] result[j]).is_default implies i == j by {
        if i < j {
            assert(methods[i].id != methods[j].id);
        } else if j < i {
            assert(methods[j].id != methods[i].id);
        }
    }
}

} // verus!
