//! Invoices and bills: numbering, line and document totals, and the status that payments
//! imply.
use vstd::prelude::*;

use crate::error::{check_transition, status_view, transition_checked, DbError};
use crate::payments::PaymentRepo;
use crate::recurring::div_trunc;
use crate::sales_orders::{line_net, line_net_fits};
use crate::seqs::{prefix_sums_fit, sum};
use crate::text::{prefixed_zero_padded, str_eq, zero_padded};

verus! {

/// Kinds of invoices.
#[derive(Debug, Clone, Copy, PartialEq, Eq, Structural)]
pub enum InvoiceKind {
    Invoice,
    Bill,
}

/// A line as priced on an invoice: quantity (hundredths), unit price, discount and tax
/// rate in basis points.
#[derive(Debug, Clone, Copy, PartialEq, Eq, Structural)]
pub struct PricedLine {
    pub quantity: i64,
    pub unit_price: i64,
    pub discount_pct: i64,
    pub tax_rate: i64,
}

/// A line's total: its net amount plus tax on it, each step truncated.
pub open spec fn priced_line_total(l: PricedLine) -> int {
    let net = line_net(l.quantity as int, l.unit_price as int, l.discount_pct as int);
    net + div_trunc(net * l.tax_rate, 10_000)
}

/// The arithmetic of a line's total stays within 64 bits.
pub open spec fn priced_line_fits(l: PricedLine) -> bool {
    let net = line_net(l.quantity as int, l.unit_price as int, l.discount_pct as int);
    line_net_fits(l.quantity as int, l.unit_price as int, l.discount_pct as int) && i64::MIN
        <= net * l.tax_rate <= i64::MAX && i64::MIN <= net + div_trunc(net * l.tax_rate, 10_000)
        <= i64::MAX
}

/// Totals of priced lines.
pub open spec fn priced_totals(lines: Seq<PricedLine>) -> Seq<int> {
    lines.map_values(|l: PricedLine| priced_line_total(l))
}

/// The status an invoice has after its payments: paid once they cover the total, partly
/// paid when something was paid, otherwise sent.
#[derive(Debug, Clone, Copy, PartialEq, Eq, Structural)]
pub enum PaymentState {
    Sent,
    Partial,
    Paid,
}

/// The status implied by what was paid against the total.
pub open spec fn payment_state(invoice_total: int, paid_total: int) -> PaymentState {
    if paid_total >= invoice_total {
        PaymentState::Paid
    } else if paid_total > 0 {
        PaymentState::Partial
    } else {
        PaymentState::Sent
    }
}

/// Invoices and bills.
pub struct InvoiceRepo;

impl InvoiceRepo {
    /// The document number for counter value `n`: `INV-` or `BILL-` and at least five
    /// digits.
    pub fn invoice_number(kind: InvoiceKind, n: i64) -> (r: String)
        ensures
            kind == InvoiceKind::Invoice ==> r@ == "INV-"@ + zero_padded(n as int, 5),
            kind == InvoiceKind::Bill ==> r@ == "BILL-"@ + zero_padded(n as int, 5),
    {
        match kind {
            InvoiceKind::Invoice => prefixed_zero_padded("INV-", n, 5),
            InvoiceKind::Bill => prefixed_zero_padded("BILL-", n, 5),
        }
    }

    /// A line's total including tax.
    pub fn line_total(l: PricedLine) -> (r: i64)
        requires
            priced_line_fits(l),
        ensures
            r == priced_line_total(l),
    {
        let net = crate::sales_orders::line_net_amount(l.quantity, l.unit_price, l.discount_pct);
        net + net * l.tax_rate / 10_000
    }

    /// An invoice's total: the sum of its lines' totals.
    pub fn total(lines: &Vec<PricedLine>) -> (r: i64)
        requires
            forall|i: int| 0 <= i < lines.len() ==> priced_line_fits(#[trigger] lines[i]),
            prefix_sums_fit(priced_totals(lines@)),
        ensures
            r == sum(priced_totals(lines@)),
    {
        let ghost ts = priced_totals(lines@);
        let mut t: i64 = 0;
        let mut i: usize = 0;
        while i < lines.len()
            invariant
                i <= lines.len(),
                ts == priced_totals(lines@),
                forall|k: int| 0 <= k < lines.len() ==> priced_line_fits(#[trigger] lines[k]),
                prefix_sums_fit(ts),
                t == sum(ts.take(i as int)),
            decreases lines.len() - i,
        {
            proof {
                crate::seqs::lemma_sum_take_succ(ts, i as int);
                assert(i64::MIN <= sum(ts.take(i + 1)) <= i64::MAX);
            }
            let v = Self::line_total(lines[i]);
            t = t + v;
            i = i + 1;
        }
        proof {
            crate::seqs::lemma_take_full(ts);
        }
        t
    }
}

impl PaymentRepo {
    /// The status an invoice moves to after a payment is recorded or voided; draft and
    /// voided invoices keep theirs (`None`).
    pub fn synced_status(current_status: &str, invoice_total: i64, paid_total: i64) -> (r: Option<
        PaymentState,
    >)
        ensures
            (current_status@ == "voided"@ || current_status@ == "draft"@) ==> r is None,
            !(current_status@ == "voided"@ || current_status@ == "draft"@) ==> r == Some(
                payment_state(invoice_total as int, paid_total as int),
            ),
    {
        if str_eq(current_status, "voided") || str_eq(current_status, "draft") {
            return None;
        }
        if paid_total >= invoice_total {
            Some(PaymentState::Paid)
        } else if paid_total > 0 {
            Some(PaymentState::Partial)
        } else {
            Some(PaymentState::Sent)
        }
    }

    /// Voiding a payment: only a recorded payment can be voided; its invoice, when paid or
    /// partially paid, goes back to sent (`Some(Sent)`), and otherwise keeps its status.
    pub fn plan_void(payment_status: Option<&str>, invoice_status: &str) -> (r: Result<
        Option<PaymentState>,
        DbError,
    >)
        ensures
            transition_checked(
                status_view(payment_status),
                "recorded"@,
                "payment cannot be voided from status '"@,
                (match r {
                    Ok(_) => Ok(()),
                    Err(e) => Err(e),
                }),
            ),
            r matches Ok(s) ==> (s == if invoice_status@ == "paid"@ || invoice_status@
                == "partial"@ {
                Some(PaymentState::Sent)
            } else {
                None::<PaymentState>
            }),
    {
        match check_transition(payment_status, "recorded", "payment cannot be voided from status '") {
            Err(e) => Err(e),
            Ok(()) => if str_eq(invoice_status, "paid") || str_eq(invoice_status, "partial") {
                Ok(Some(PaymentState::Sent))
            } else {
                Ok(None)
            },
        }
    }
}

} // verus!
