//! Subscription plans and billing periods.
use vstd::prelude::*;

use crate::dates::{min_int, valid_ymd, CalDate, MAX_YEAR};
use crate::error::{refuse, status_refusal, Conflict, DbError};
use crate::recurring::{add_days_in_range, days_later_in_range, days_later_is};
use crate::seqs::{lemma_filter_take_succ, lemma_map_push};
use crate::text::str_eq;

verus! {

/// Billing cycles a subscription plan may use.
pub open spec fn is_billing_cycle(c: Seq<char>) -> bool {
    c == "weekly"@ || c == "monthly"@ || c == "quarterly"@ || c == "annually"@
}

/// The end of a billing period that starts on `start`: one week later for weekly plans;
/// otherwise one, three or twelve months later with the day capped at 28, keeping `start`
/// when that date falls outside the supported range. Unknown cycles bill monthly.
pub open spec fn period_end_is(start: CalDate, cycle: Seq<char>, r: CalDate) -> bool {
    if cycle == "weekly"@ {
        days_later_is(start, 7, r)
    } else {
        let (y, m) = if cycle == "quarterly"@ {
            if start.month + 3 > 12 {
                (start.year + 1, start.month + 3 - 12)
            } else {
                (start.year as int, start.month + 3)
            }
        } else if cycle == "annually"@ {
            (start.year + 1, start.month as int)
        } else if start.month == 12 {
            (start.year + 1, 1)
        } else {
            (start.year as int, start.month + 1)
        };
        let d = min_int(start.day as int, 28);
        if valid_ymd(y, m, d) {
            r.is_ymd(y, m, d)
        } else {
            r == start
        }
    }
}

/// A weekly period end is representable.
pub open spec fn period_end_ok(start: CalDate, cycle: Seq<char>) -> bool {
    cycle == "weekly"@ ==> days_later_in_range(start, 7)
}

/// The dates and status of a subscription created on `today`.
pub struct NewSubscription {
    pub status: SubscriptionStatus,
    pub trial_end: Option<CalDate>,
    pub period_start: CalDate,
    pub period_end: CalDate,
}

/// Lifecycle states of a subscription.
#[derive(Debug, Clone, Copy, PartialEq, Eq, Structural)]
pub enum SubscriptionStatus {
    Trialing,
    Active,
    PastDue,
    Cancelled,
}

/// What renewing a subscription does.
#[derive(Debug, Clone, Copy, PartialEq, Eq, Structural)]
pub enum Renewal {
    /// The subscription was set to cancel at period end: cancel it now.
    Cancel,
    /// Start a new period running from the old period end to `new_end`.
    Advance { new_start: CalDate, new_end: CalDate },
}

/// The invoice line billed for one period of a subscription.
pub struct BillingLine {
    /// Quantity in hundredths of a unit.
    pub quantity: i64,
    pub unit_price: i64,
}

/// Summary of a billing run over due subscriptions.
pub struct BillingRunResult {
    pub invoiced_count: i64,
    pub failed_count: i64,
    pub invoice_ids: Vec<String>,
    pub failed_subscription_ids: Vec<String>,
}

/// Subscription plans and subscriptions.
pub struct SubscriptionRepo;

impl SubscriptionRepo {
    /// End of the billing period starting on `start`.
    pub fn next_period_end(start: CalDate, cycle: &str) -> (r: CalDate)
        requires
            start.valid(),
            period_end_ok(start, cycle@),
        ensures
            period_end_is(start, cycle@, r),
            r.valid(),
    {
        proof {
            reveal_strlit("weekly");
            reveal_strlit("quarterly");
            reveal_strlit("annually");
        }
        if str_eq(cycle, "weekly") {
            return add_days_in_range(start, 7);
        }
        let day = if start.day < 28 {
            start.day
        } else {
            28
        };
        let (y, m): (i32, u8) = if str_eq(cycle, "quarterly") {
            if start.month + 3 > 12 {
                (start.year + 1, start.month + 3 - 12)
            } else {
                (start.year, start.month + 3)
            }
        } else if str_eq(cycle, "annually") {
            (start.year + 1, start.month)
        } else if start.month == 12 {
            (start.year + 1, 1)
        } else {
            (start.year, start.month + 1)
        };
        match CalDate::new(y, m, day) {
            Some(d) => d,
            None => start,
        }
    }

    /// Accepts the billing cycles a plan may be created with.
    pub fn validate_billing_cycle(cycle: &str) -> (r: Result<(), DbError>)
        ensures
            r is Ok <==> is_billing_cycle(cycle@),
            r matches Err(e) ==> e matches DbError::Conflict(Conflict::InvalidBillingCycle(s))
                && s@ == cycle@,
    {
        if str_eq(cycle, "weekly") || str_eq(cycle, "monthly") || str_eq(cycle, "quarterly")
            || str_eq(cycle, "annually") {
            Ok(())
        } else {
            Err(DbError::Conflict(Conflict::InvalidBillingCycle(String::from_str(cycle))))
        }
    }

    /// A new subscription on `today`: with a trial it starts trialing and its first period
    /// begins when the trial ends; without one it is active from today.
    pub fn plan_new_subscription(today: CalDate, billing_cycle: &str, trial_days: i32) -> (r:
        NewSubscription)
        requires
            today.valid(),
            trial_days > 0 ==> days_later_in_range(today, trial_days as int),
            trial_days > 0 && billing_cycle@ == "weekly"@ ==> today.day_number() + trial_days + 7
                <= crate::dates::max_day_number(),
            trial_days <= 0 ==> period_end_ok(today, billing_cycle@),
        ensures
            trial_days > 0 ==> r.status == SubscriptionStatus::Trialing,
            trial_days > 0 ==> (r.trial_end matches Some(t) && days_later_is(
                today,
                trial_days as int,
                t,
            ) && r.period_start == t),
            trial_days <= 0 ==> r.status == SubscriptionStatus::Active && r.trial_end is None
                && r.period_start == today,
            period_end_is(r.period_start, billing_cycle@, r.period_end),
    {
        if trial_days > 0 {
            let t = add_days_in_range(today, trial_days as i64);
            let end = Self::next_period_end(t, billing_cycle);
            NewSubscription {
                status: SubscriptionStatus::Trialing,
                trial_end: Some(t),
                period_start: t,
                period_end: end,
            }
        } else {
            let end = Self::next_period_end(today, billing_cycle);
            NewSubscription {
                status: SubscriptionStatus::Active,
                trial_end: None,
                period_start: today,
                period_end: end,
            }
        }
    }

    /// Renewal after a successful payment: cancel when flagged to cancel at period end,
    /// otherwise start the next period at the old period end.
    pub fn plan_renewal(current_end: CalDate, billing_cycle: &str, cancel_at_period_end: bool) -> (r:
        Renewal)
        requires
            current_end.valid(),
            period_end_ok(current_end, billing_cycle@),
        ensures
            cancel_at_period_end ==> r == Renewal::Cancel,
            !cancel_at_period_end ==> (r matches Renewal::Advance { new_start, new_end }
                && new_start == current_end && period_end_is(current_end, billing_cycle@, new_end)),
    {
        if cancel_at_period_end {
            Renewal::Cancel
        } else {
            let new_end = Self::next_period_end(current_end, billing_cycle);
            Renewal::Advance { new_start: current_end, new_end }
        }
    }

    /// Amount billed per period: unit price times quantity.
    pub fn billing_amount(plan_price: i64, quantity: i32) -> (r: i64)
        requires
            i64::MIN <= plan_price * quantity <= i64::MAX,
        ensures
            r == plan_price * quantity,
    {
        plan_price * quantity as i64
    }

    /// The invoice line for one period: only active or trialing subscriptions are billed;
    /// the quantity is expressed in hundredths.
    pub fn plan_bill(status: SubscriptionStatus, quantity: i32, unit_price: i64) -> (r: Result<
        BillingLine,
        DbError,
    >)
        ensures
            (status == SubscriptionStatus::Active || status == SubscriptionStatus::Trialing)
                ==> (r matches Ok(l) && l.quantity == quantity * 100 && l.unit_price == unit_price),
            !(status == SubscriptionStatus::Active || status == SubscriptionStatus::Trialing)
                ==> r == Err::<BillingLine, DbError>(
                DbError::Conflict(Conflict::SubscriptionNotBillable),
            ),
    {
        match status {
            SubscriptionStatus::Active | SubscriptionStatus::Trialing => Ok(
                BillingLine { quantity: quantity as i64 * 100, unit_price },
            ),
            _ => Err(DbError::Conflict(Conflict::SubscriptionNotBillable)),
        }
    }
}

impl SubscriptionRepo {
    /// Trialing, active and past-due subscriptions can be cancelled; a missing one, or one
    /// already cancelled, is refused.
    pub fn check_cancel(status: Option<SubscriptionStatus>) -> (r: Result<(), DbError>)
        ensures
            r is Ok <==> (status == Some(SubscriptionStatus::Trialing) || status == Some(
                SubscriptionStatus::Active,
            ) || status == Some(SubscriptionStatus::PastDue)),
            r matches Err(e) ==> status_refusal(
                e,
                "subscription cannot be cancelled in its current state"@,
            ),
    {
        match status {
            Some(SubscriptionStatus::Trialing) | Some(SubscriptionStatus::Active) | Some(
                SubscriptionStatus::PastDue,
            ) => Ok(()),
            _ => Err(refuse("subscription cannot be cancelled in its current state")),
        }
    }
}

impl BillingRunResult {
    /// Collects the outcome of billing each due subscription, in order: the invoice id on
    /// success, the subscription id on failure.
    pub fn from_outcomes(outcomes: Vec<(String, Option<String>)>) -> (r: BillingRunResult)
        requires
            outcomes.len() <= i64::MAX,
        ensures
            r.invoice_ids@.map_values(|s: String| s@) == outcomes@.filter(
                |o: (String, Option<String>)| o.1 is Some,
            ).map_values(|o: (String, Option<String>)| o.1->0@),
            r.failed_subscription_ids@.map_values(|s: String| s@) == outcomes@.filter(
                |o: (String, Option<String>)| o.1 is None,
            ).map_values(|o: (String, Option<String>)| o.0@),
            r.invoiced_count == r.invoice_ids.len(),
            r.failed_count == r.failed_subscription_ids.len(),
            r.invoiced_count + r.failed_count == outcomes.len(),
    {
        let mut invoice_ids: Vec<String> = Vec::new();
        let mut failed: Vec<String> = Vec::new();
        let ghost pick_ok = |o: (String, Option<String>)| o.1 is Some;
        let ghost pick_err = |o: (String, Option<String>)| o.1 is None;
        let ghost inv_of = |o: (String, Option<String>)| o.1->0@;
        let ghost sub_of = |o: (String, Option<String>)| o.0@;
        let ghost view_of = |s: String| s@;
        let n = outcomes.len();
        let mut i: usize = 0;
        while i < n
            invariant
                n == outcomes.len(),
                i <= n,
                invoice_ids@.map_values(view_of) == outcomes@.take(i as int).filter(
                    pick_ok,
                ).map_values(inv_of),
                failed@.map_values(view_of) == outcomes@.take(i as int).filter(
                    pick_err,
                ).map_values(sub_of),
                invoice_ids.len() + failed.len() == i,
                pick_ok == (|o: (String, Option<String>)| o.1 is Some),
                pick_err == (|o: (String, Option<String>)| o.1 is None),
                inv_of == (|o: (String, Option<String>)| o.1->0@),
                sub_of == (|o: (String, Option<String>)| o.0@),
                view_of == (|s: String| s@),
            decreases n - i,
        {
            let o = &outcomes[i];
            proof {
                lemma_filter_take_succ(outcomes@, pick_ok, i as int);
                lemma_filter_take_succ(outcomes@, pick_err, i as int);
            }
            match &o.1 {
                Some(inv) => {
                    let c = inv.clone();
                    proof {
                        lemma_map_push(outcomes@.take(i as int).filter(pick_ok), inv_of, outcomes@[i as int]);
                        lemma_map_push(invoice_ids@, view_of, c);
                    }
                    invoice_ids.push(c);

                },
                None => {
                    let c = o.0.clone();
                    proof {
                        lemma_map_push(outcomes@.take(i as int).filter(pick_err), sub_of, outcomes@[i as int]);
                        lemma_map_push(failed@, view_of, c);
                    }
                    failed.push(c);
                },
            }
            i = i + 1;
        }
        assert(outcomes@.take(n as int) =~= outcomes@);
        assert(invoice_ids@.map_values(|s: String| s@) =~= invoice_ids@.map_values(view_of));
        assert(failed@.map_values(|s: String| s@) =~= failed@.map_values(view_of));
        assert(outcomes@.filter(pick_ok).map_values(inv_of) =~= outcomes@.filter(
            |o: (String, Option<String>)| o.1 is Some,
        ).map_values(|o: (String, Option<String>)| o.1->0@));
        assert(outcomes@.filter(pick_err).map_values(sub_of) =~= outcomes@.filter(
            |o: (String, Option<String>)| o.1 is None,
        ).map_values(|o: (String, Option<String>)| o.0@));
        let ic = invoice_ids.len() as i64;
        let fc = failed.len() as i64;
        BillingRunResult {
            invoiced_count: ic,
            failed_count: fc,
            invoice_ids,
            failed_subscription_ids: failed,
        }
    }
}

} // verus!
