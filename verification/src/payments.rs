//! Payments against invoices: realized exchange differences, their journal entry, refund
//! checks and the invoice status that payments imply.
use vstd::prelude::*;

use crate::error::{Conflict, DbError};
use crate::ledger::{balanced, is_credit_line, is_debit_line, memo_is, transfer_lines, JournalLine};
use crate::recurring::div_trunc;
use crate::sales_orders::line_net;
use crate::seqs::{prefix_sums_fit, sum};
use crate::text::str_eq;

verus! {

// ── decimals ───────────────────────────────────────────────────────────────────

/// A decimal number `mantissa / 10^scale`, as `rust_decimal::Decimal` holds it.
#[derive(Debug, Clone, Copy, PartialEq, Eq, Structural)]
pub struct Dec {
    pub mantissa: i128,
    pub scale: u32,
}

/// Largest mantissa a decimal can hold (96 bits).
pub const DEC_MAX_MANTISSA: i128 = 0xFFFF_FFFF_FFFF_FFFF_FFFF_FFFF;

/// A decimal that `rust_decimal` can represent: scale at most 28, mantissa within 96 bits.
pub open spec fn dec_wf(d: Dec) -> bool {
    d.scale <= 28 && -DEC_MAX_MANTISSA <= d.mantissa <= DEC_MAX_MANTISSA
}

/// `10^k`.
pub open spec fn pow10(k: nat) -> int
    decreases k,
{
    if k == 0 {
        1
    } else {
        10 * pow10((k - 1) as nat)
    }
}

/// Two decimals denote the same number.
pub open spec fn dec_same_value(a: Dec, b: Dec) -> bool {
    a.mantissa * pow10(b.scale as nat) == b.mantissa * pow10(a.scale as nat)
}

/// What `rust_decimal::Decimal::checked_mul` gives.
pub uninterp spec fn decimal_checked_mul(a: Dec, b: Dec) -> Option<Dec>;

/// What `rust_decimal::Decimal::checked_div` gives.
pub uninterp spec fn decimal_checked_div(a: Dec, b: Dec) -> Option<Dec>;

/// What `rust_decimal::Decimal::checked_sub` gives.
pub uninterp spec fn decimal_checked_sub(a: Dec, b: Dec) -> Option<Dec>;

/// `m / p` rounded to an integer, half to even (`p` positive).
pub open spec fn round_half_even(m: int, p: int) -> int {
    let q = div_trunc(m, p);
    let rest = m - q * p;
    let size = if rest >= 0 {
        rest
    } else {
        -rest
    };
    let away = if m >= 0 {
        q + 1
    } else {
        q - 1
    };
    if 2 * size > p {
        away
    } else if 2 * size < p {
        q
    } else if q % 2 == 0 {
        q
    } else {
        away
    }
}

/// What `rust_decimal::Decimal::round` gives: a decimal without fractional digits is
/// left as it is; any other is rounded to an integer, half to even, with scale 0.
pub open spec fn decimal_round(a: Dec) -> Dec {
    if a.scale == 0 {
        a
    } else {
        Dec { mantissa: round_half_even(a.mantissa as int, pow10(a.scale as nat)) as i128, scale: 0 }
    }
}

/// What `rust_decimal::prelude::ToPrimitive::to_i64` gives for a decimal: its integer
/// part (truncated toward zero) when that fits in an `i64`.
pub open spec fn decimal_to_i64(a: Dec) -> Option<i64> {
    let t = div_trunc(a.mantissa as int, pow10(a.scale as nat));
    if i64::MIN <= t <= i64::MAX {
        Some(t as i64)
    } else {
        None
    }
}

/// `Decimal::checked_mul`: the product, or `None` where `*` would panic on overflow.
///
/// Trusted: the result is the named product; a present result is a representable decimal.
#[verifier::external_body]
fn dec_mul(a: Dec, b: Dec) -> (r: Option<Dec>)
    requires
        dec_wf(a),
        dec_wf(b),
    ensures
        r == decimal_checked_mul(a, b),
        r matches Some(x) ==> dec_wf(x),
{
    let x = rust_decimal::Decimal::from_i128_with_scale(a.mantissa, a.scale);
    let y = rust_decimal::Decimal::from_i128_with_scale(b.mantissa, b.scale);
    x.checked_mul(y).map(|z| Dec { mantissa: z.mantissa(), scale: z.scale() })
}

/// `Decimal::checked_div`: the quotient, or `None` where `/` would panic (overflow or a
/// zero divisor).
///
/// Trusted: the result is the named quotient; a present result is a representable decimal.
#[verifier::external_body]
fn dec_div(a: Dec, b: Dec) -> (r: Option<Dec>)
    requires
        dec_wf(a),
        dec_wf(b),
    ensures
        r == decimal_checked_div(a, b),
        r matches Some(x) ==> dec_wf(x),
{
    let x = rust_decimal::Decimal::from_i128_with_scale(a.mantissa, a.scale);
    let y = rust_decimal::Decimal::from_i128_with_scale(b.mantissa, b.scale);
    x.checked_div(y).map(|z| Dec { mantissa: z.mantissa(), scale: z.scale() })
}

/// `Decimal::checked_sub`: the difference, or `None` where `-` would panic on overflow.
///
/// Trusted: the result is the named difference; a present result is a representable decimal.
#[verifier::external_body]
fn dec_sub(a: Dec, b: Dec) -> (r: Option<Dec>)
    requires
        dec_wf(a),
        dec_wf(b),
    ensures
        r == decimal_checked_sub(a, b),
        r matches Some(x) ==> dec_wf(x),
{
    let x = rust_decimal::Decimal::from_i128_with_scale(a.mantissa, a.scale);
    let y = rust_decimal::Decimal::from_i128_with_scale(b.mantissa, b.scale);
    x.checked_sub(y).map(|z| Dec { mantissa: z.mantissa(), scale: z.scale() })
}

/// `Decimal::round`: rounds to an integer, half to even.
///
/// Trusted: the result is the rounding stated in [`decimal_round`], a representable decimal.
#[verifier::external_body]
fn dec_round(a: Dec) -> (r: Dec)
    requires
        dec_wf(a),
    ensures
        r == decimal_round(a),
        dec_wf(r),
{
    let z = rust_decimal::Decimal::from_i128_with_scale(a.mantissa, a.scale).round();
    Dec { mantissa: z.mantissa(), scale: z.scale() }
}

/// `ToPrimitive::to_i64` on a decimal: its integer part when that fits in an `i64`.
///
/// Trusted: the result is the conversion stated in [`decimal_to_i64`].
#[verifier::external_body]
fn dec_to_i64(a: Dec) -> (r: Option<i64>)
    requires
        dec_wf(a),
    ensures
        r == decimal_to_i64(a),
{
    let x = rust_decimal::Decimal::from_i128_with_scale(a.mantissa, a.scale);
    rust_decimal::prelude::ToPrimitive::to_i64(&x)
}

/// `PartialEq` on decimals, which compares the numbers they denote.
///
/// Trusted: true exactly when both denote the same number.
#[verifier::external_body]
fn dec_eq(a: Dec, b: Dec) -> (r: bool)
    requires
        dec_wf(a),
        dec_wf(b),
    ensures
        r == dec_same_value(a, b),
{
    rust_decimal::Decimal::from_i128_with_scale(a.mantissa, a.scale)
        == rust_decimal::Decimal::from_i128_with_scale(b.mantissa, b.scale)
}

// ── realized exchange differences ─────────────────────────────────────────────

/// The realized exchange difference of a payment of `amount` (in invoice currency units)
/// recorded at `pay_rate` against an invoice booked at `invoice_rate`:
/// `round(amount − amount × invoice_rate / pay_rate)`, or 0 when it does not fit in an
/// `i64`; zero when the payment has no rate, the same rate, or a zero rate. `None` where a
/// decimal operation overflows.
pub open spec fn realized_fx(amount: i64, invoice_rate: Dec, pay_rate: Option<Dec>) -> Option<i64> {
    match pay_rate {
        None => Some(0),
        Some(p) => if dec_same_value(p, invoice_rate) || p.mantissa == 0 {
            Some(0)
        } else {
            let a = Dec { mantissa: amount as i128, scale: 0 };
            match decimal_checked_mul(a, invoice_rate) {
                None => None,
                Some(m) => match decimal_checked_div(m, p) {
                    None => None,
                    Some(q) => match decimal_checked_sub(a, q) {
                        None => None,
                        Some(d) => Some(
                            match decimal_to_i64(decimal_round(d)) {
                                Some(v) => v,
                                None => 0,
                            },
                        ),
                    },
                },
            }
        },
    }
}

/// Which way an exchange difference went.
#[derive(Debug, Clone, Copy, PartialEq, Eq, Structural)]
pub enum FxKind {
    Gain,
    Loss,
}

/// The journal entry of a realized exchange difference.
pub struct FxPosting {
    pub kind: FxKind,
    pub lines: Vec<JournalLine>,
}

/// Payments.
pub struct PaymentRepo;

impl PaymentRepo {
    /// The realized exchange difference of a new payment (see [`realized_fx`]); `None`
    /// where the decimal arithmetic overflows.
    pub fn realized_fx_amount(amount: i64, invoice_rate: Dec, pay_rate: Option<Dec>) -> (r: Option<
        i64,
    >)
        requires
            dec_wf(invoice_rate),
            pay_rate matches Some(p) ==> dec_wf(p),
        ensures
            r == realized_fx(amount, invoice_rate, pay_rate),
    {
        match pay_rate {
            None => Some(0),
            Some(p) => {
                if dec_eq(p, invoice_rate) || p.mantissa == 0 {
                    return Some(0);
                }
                let a = Dec { mantissa: amount as i128, scale: 0 };
                let m = match dec_mul(a, invoice_rate) {
                    None => return None,
                    Some(m) => m,
                };
                let q = match dec_div(m, p) {
                    None => return None,
                    Some(q) => q,
                };
                let d = match dec_sub(a, q) {
                    None => return None,
                    Some(d) => d,
                };
                let rounded = dec_round(d);
                match dec_to_i64(rounded) {
                    Some(v) => Some(v),
                    None => Some(0),
                }
            },
        }
    }

    /// The journal entry for a payment's realized exchange difference: nothing when there
    /// is none or when it is already in the ledger; otherwise a gain debits receivables and
    /// credits the exchange account, a loss the reverse, both for the difference's size.
    pub fn fx_posting(
        realized_fx_amount: i64,
        already_posted: bool,
        ar_account_id: &str,
        fx_account_id: &str,
    ) -> (r: Result<Option<FxPosting>, DbError>)
        requires
            realized_fx_amount != i64::MIN,
        ensures
            realized_fx_amount == 0 || already_posted ==> r == Ok::<Option<FxPosting>, DbError>(None),
            realized_fx_amount > 0 && !already_posted ==> (r matches Ok(Some(p)) && p.kind
                == FxKind::Gain && p.lines.len() == 2 && is_debit_line(
                p.lines@[0],
                ar_account_id@,
                realized_fx_amount as int,
            ) && is_credit_line(p.lines@[1], fx_account_id@, realized_fx_amount as int)
                && memo_is(p.lines@[0].description, "Realized FX gain — AR settlement"@)
                && memo_is(p.lines@[1].description, "Realized FX gain"@) && balanced(p.lines@)),
            realized_fx_amount < 0 && !already_posted ==> (r matches Ok(Some(p)) && p.kind
                == FxKind::Loss && p.lines.len() == 2 && is_debit_line(
                p.lines@[0],
                fx_account_id@,
                -realized_fx_amount,
            ) && is_credit_line(p.lines@[1], ar_account_id@, -realized_fx_amount)
                && memo_is(p.lines@[0].description, "Realized FX loss"@)
                && memo_is(p.lines@[1].description, "Realized FX loss — AR settlement"@)
                && balanced(p.lines@)),
    {
        if realized_fx_amount == 0 || already_posted {
            return Ok(None);
        }
        if realized_fx_amount > 0 {
            let lines = transfer_lines(
                ar_account_id,
                fx_account_id,
                realized_fx_amount,
                Some(String::from_str("Realized FX gain — AR settlement")),
                Some(String::from_str("Realized FX gain")),
            );
            Ok(Some(FxPosting { kind: FxKind::Gain, lines }))
        } else {
            let lines = transfer_lines(
                fx_account_id,
                ar_account_id,
                -realized_fx_amount,
                Some(String::from_str("Realized FX loss")),
                Some(String::from_str("Realized FX loss — AR settlement")),
            );
            Ok(Some(FxPosting { kind: FxKind::Loss, lines }))
        }
    }

    /// The reference of the exchange-difference entry: `FX-` and the first eight
    /// characters of the payment's id.
    pub fn fx_reference(payment_id: &str) -> (r: String)
        requires
            payment_id@.len() >= 8,
        ensures
            r@ == "FX-"@ + payment_id@.subrange(0, 8),
    {
        crate::text::short_reference("FX-", payment_id)
    }

    /// A refund must be of a payment that is not voided, for a positive amount no larger
    /// than the payment.
    pub fn check_refund(payment_status: &str, payment_amount: i64, refund_amount: i64) -> (r:
        Result<(), DbError>)
        ensures
            payment_status@ == "voided"@ ==> r == Err::<(), DbError>(
                DbError::Conflict(Conflict::RefundOfVoidedPayment),
            ),
            payment_status@ != "voided"@ && (refund_amount <= 0 || refund_amount > payment_amount)
                ==> r == Err::<(), DbError>(DbError::Conflict(Conflict::InvalidRefundAmount)),
            payment_status@ != "voided"@ && 0 < refund_amount <= payment_amount ==> r is Ok,
    {
        if str_eq(payment_status, "voided") {
            return Err(DbError::Conflict(Conflict::RefundOfVoidedPayment));
        }
        if refund_amount <= 0 || refund_amount > payment_amount {
            return Err(DbError::Conflict(Conflict::InvalidRefundAmount));
        }
        Ok(())
    }
}

} // verus!
