//! Errors returned by the data layer.
use vstd::prelude::*;

use crate::text::{prefixed_zero_padded, str_eq, zero_padded};

verus! {

/// Why a request was refused although the data it names exists.
#[derive(Debug, PartialEq, Eq)]
pub enum Conflict {
    /// A string that should hold a UUID does not.
    InvalidUuid(String),
    /// A string that should hold an ISO-8601 date does not.
    InvalidDate(String),
    /// A recurring frequency outside the accepted set.
    InvalidFrequency(String),
    /// A recurring template that is no longer active cannot generate documents.
    Inactive(Template),
    /// A billing cycle outside the accepted set.
    InvalidBillingCycle(String),
    /// Only active or trialing subscriptions can be billed.
    SubscriptionNotBillable,
    /// A report-schedule frequency outside daily, weekly, monthly, quarterly.
    InvalidScheduleFrequency,
    /// A lease type other than finance or operating.
    InvalidLeaseType(String),
    /// A lease payment frequency other than monthly, quarterly or annual.
    InvalidPaymentFrequency(String),
    /// An end date on or before the start date.
    EndNotAfterStart,
    /// A lease ending on or before its commencement.
    EndNotAfterCommencement,
    /// The period date is not one of the lease schedule's dates.
    PeriodNotInSchedule,
    /// A payment was already recorded for this lease period.
    PaymentAlreadyRecorded,
    /// A journal entry needs at least two lines.
    TooFewLines,
    /// Total debits differ from total credits.
    Unbalanced { debit: i64, credit: i64 },
    /// A revenue-recognition method outside the accepted set.
    InvalidRevRecMethod(String),
    /// Amounts to schedule must be positive.
    NonPositiveTotal,
    /// The date range covers no period.
    NoPeriods,
    /// Landed costs can only be added to posted goods receipts.
    ReceiptNotPosted,
    /// The goods receipt has no lines to allocate to.
    NoLinesToAllocate,
    /// All allocation weights add up to zero.
    ZeroTotalWeight,
    /// The record's status does not allow the operation; the text says which and why.
    InvalidStatus(String),
    /// No line is left to convert.
    NoUninvoicedLines,
    /// A voided payment cannot be refunded.
    RefundOfVoidedPayment,
    /// A refund must be positive and no larger than the payment.
    InvalidRefundAmount,
    /// The claims of a project would exceed 100% of the contract (whole percents).
    ClaimExceedsContract { claimed_pct: i64, requested_pct: i64 },
    /// Only approved claims can be invoiced.
    ClaimNotApproved,
    /// The project has no contact to invoice.
    ProjectHasNoContact,
    /// Retainage was already released for the project.
    RetainageAlreadyReleased,
    /// No retainage is held for the project.
    NoRetainage,
    /// The payroll run has no pay to book.
    NoPayrollEntries,
    /// The document is already posted.
    AlreadyPosted,
    /// A period that is not `YYYY-MM`.
    InvalidPeriod(String),
    /// No unposted entry is due for the period.
    NothingToRecognize,
    /// The entry was already recognized.
    AlreadyRecognized,
    /// Amounts must be positive.
    NonPositiveAmount,
    /// Quantities cannot be negative.
    NegativeQuantity,
    /// Quantities must be positive.
    NonPositiveQuantity,
    /// No quantity was given and the product has no reorder quantity.
    NoReorderQuantity,
    /// A supplier is required.
    SupplierRequired,
    /// The document has no contact to invoice.
    MissingContact,
    /// An end date before the start date.
    EndBeforeStart,
    /// Amounts cannot be negative.
    NegativeAmount,
    /// Tax and deductions exceed gross pay.
    NegativeNetPay,
    /// A quarter outside 1 to 4.
    InvalidQuarter,
    /// A report quarter outside 1 to 4.
    QuarterOutOfRange,
    /// The OIDC login state is older than fifteen minutes.
    OidcStateExpired,
    /// A payment plan needs at least one installment.
    NoInstallments,
    /// The amount exceeds the remaining balance.
    ExceedsRemaining { remaining: i64 },
    /// The amount to apply exceeds what remains of the prepayment.
    ApplyExceedsRemaining { amount: i64, remaining: i64 },
    /// A negative gross pay.
    NegativeGrossPay,
    /// A delivery date that is not `YYYY-MM-DD`.
    InvalidDeliveryDate(String),
    /// The retainer holds less than the amount.
    InsufficientBalance,
    /// A payment type other than card, bank account or PayPal.
    InvalidPaymentType,
}

/// Kinds of recurring templates.
#[derive(Debug, Clone, Copy, PartialEq, Eq, Structural)]
pub enum Template {
    JournalEntry,
    Bill,
    Invoice,
}

/// The error type of every repository operation.
#[derive(Debug, PartialEq, Eq)]
pub enum DbError {
    /// The row the request names does not exist (or belongs to another organization).
    NotFound,
    /// The request conflicts with the data or is malformed.
    Conflict(Conflict),
    /// An unexpected failure of a component the data layer relies on.
    Internal(String),
}

/// `e` refuses an operation because of a record's status, with the text `text`.
pub open spec fn status_refusal(e: DbError, text: Seq<char>) -> bool {
    e matches DbError::Conflict(Conflict::InvalidStatus(m)) && m@ == text
}

/// A refusal because of a status, with a fixed text.
pub fn refuse(text: &str) -> (r: DbError)
    ensures
        status_refusal(r, text@),
{
    DbError::Conflict(Conflict::InvalidStatus(String::from_str(text)))
}

/// A refusal that names the status: `before`, the status, then `after`.
pub fn refuse_status(before: &str, status: &str, after: &str) -> (r: DbError)
    ensures
        status_refusal(r, before@ + status@ + after@),
{
    let mut m = String::from_str(before);
    m.append(status);
    m.append(after);
    DbError::Conflict(Conflict::InvalidStatus(m))
}

/// The status workflow: an operation that starts from `required` succeeds only when the
/// record exists and is in that status; otherwise it is refused with `refusal`, the
/// current status and a closing quote.
pub open spec fn transition_checked(
    current: Option<Seq<char>>,
    required: Seq<char>,
    refusal: Seq<char>,
    r: Result<(), DbError>,
) -> bool {
    match current {
        None => r == Err::<(), DbError>(DbError::NotFound),
        Some(s) => if s == required {
            r is Ok
        } else {
            r matches Err(e) && status_refusal(e, refusal + s + "'"@)
        },
    }
}

/// The current status as a plain value.
pub open spec fn status_view(current: Option<&str>) -> Option<Seq<char>> {
    match current {
        Some(s) => Some(s@),
        None => None,
    }
}

/// Checks that a record is in the status an operation starts from.
pub fn check_transition(current: Option<&str>, required: &str, refusal: &str) -> (r: Result<
    (),
    DbError,
>)
    ensures
        transition_checked(status_view(current), required@, refusal@, r),
{
    match current {
        None => Err(DbError::NotFound),
        Some(s) => if str_eq(s, required) {
            Ok(())
        } else {
            Err(refuse_status(refusal, s, "'"))
        },
    }
}

/// What an error says to its reader.
pub open spec fn error_text(e: DbError) -> Seq<char> {
    match e {
        DbError::NotFound => "not found"@,
        DbError::Conflict(c) => conflict_text(c),
        DbError::Internal(s) => s@,
    }
}

/// What a conflict says to its reader.
pub open spec fn conflict_text(c: Conflict) -> Seq<char> {
    match c {
        Conflict::InvalidUuid(s) => "invalid UUID: "@ + s@,
        Conflict::InvalidDate(s) => "invalid date: "@ + s@,
        Conflict::InvalidFrequency(s) => "invalid frequency '"@ + s@ + "'"@,
        Conflict::Inactive(t) => match t {
            Template::JournalEntry => "recurring journal entry is inactive"@,
            Template::Bill => "recurring bill is inactive"@,
            Template::Invoice => "recurring invoice is inactive"@,
        },
        Conflict::InvalidBillingCycle(s) => "invalid billing_cycle '"@ + s@ + "'"@,
        Conflict::SubscriptionNotBillable => "subscription must be active or trialing to bill"@,
        Conflict::InvalidScheduleFrequency => "frequency must be one of: daily, weekly, monthly, quarterly"@,
        Conflict::InvalidLeaseType(s) => "invalid lease_type: "@ + s@,
        Conflict::InvalidPaymentFrequency(s) => "invalid payment_frequency: "@ + s@,
        Conflict::EndNotAfterStart => "end_date must be after start_date"@,
        Conflict::EndNotAfterCommencement => "end_date must be after commencement_date"@,
        Conflict::PeriodNotInSchedule => "period_date not in lease schedule"@,
        Conflict::PaymentAlreadyRecorded => "payment already recorded for this period"@,
        Conflict::TooFewLines => "journal entry must have at least two lines"@,
        Conflict::Unbalanced { debit, credit } => "debits ("@ + zero_padded(debit as int, 0) + ") must equal credits ("@ + zero_padded(credit as int, 0) + ")"@,
        Conflict::InvalidRevRecMethod(s) => "invalid rev-rec method '"@ + s@ + "'"@,
        Conflict::NonPositiveTotal => "total_amount must be positive"@,
        Conflict::NoPeriods => "no periods found in date range"@,
        Conflict::ReceiptNotPosted => "landed costs can only be added to posted GRNs"@,
        Conflict::NoLinesToAllocate => "GRN has no lines to allocate to"@,
        Conflict::ZeroTotalWeight => "cannot allocate: total weight is zero"@,
        Conflict::InvalidStatus(m) => m@,
        Conflict::NoUninvoicedLines => "no uninvoiced lines to convert"@,
        Conflict::RefundOfVoidedPayment => "cannot refund a voided payment"@,
        Conflict::InvalidRefundAmount => "refund amount must be positive and not exceed payment amount"@,
        Conflict::ClaimExceedsContract { claimed_pct, requested_pct } => "cumulative claim percentage would exceed 100% (already claimed "@ + zero_padded(claimed_pct as int, 0) + "%, requested "@ + zero_padded(requested_pct as int, 0) + "%)"@,
        Conflict::ClaimNotApproved => "claim must be approved before invoicing"@,
        Conflict::ProjectHasNoContact => "project has no contact to invoice"@,
        Conflict::RetainageAlreadyReleased => "retainage has already been released for this project"@,
        Conflict::NoRetainage => "no retainage to release for this project"@,
        Conflict::NoPayrollEntries => "no payroll entries to post"@,
        Conflict::AlreadyPosted => "GRN is already posted"@,
        Conflict::InvalidPeriod(s) => "invalid period '"@ + s@ + "'; expected YYYY-MM"@,
        Conflict::NothingToRecognize => "no unposted entries found for this period"@,
        Conflict::AlreadyRecognized => "entry is already recognized"@,
        Conflict::NonPositiveAmount => "amount must be positive"@,
        Conflict::NegativeQuantity => "quantity cannot be negative"@,
        Conflict::NonPositiveQuantity => "requested_qty must be > 0"@,
        Conflict::NoReorderQuantity => "requested_qty not provided and product has no reorder_qty set"@,
        Conflict::SupplierRequired => "supplier_id is required to submit a reorder request"@,
        Conflict::MissingContact => "quote must have a contact to convert to invoice"@,
        Conflict::EndBeforeStart => "end_date must be >= start_date"@,
        Conflict::NegativeAmount => "amounts must be non-negative"@,
        Conflict::NegativeNetPay => "net_pay would be negative (tax_withheld + deductions exceeds gross_pay)"@,
        Conflict::InvalidQuarter => "quarter must be 1–4"@,
        Conflict::QuarterOutOfRange => "quarter must be 1-4"@,
        Conflict::OidcStateExpired => "OIDC state expired"@,
        Conflict::NoInstallments => "payment plan must have at least one installment"@,
        Conflict::ExceedsRemaining { remaining } => "amount exceeds remaining balance of "@ + zero_padded(remaining as int, 0),
        Conflict::ApplyExceedsRemaining { amount, remaining } => "apply amount "@ + zero_padded(amount as int, 0) + " exceeds remaining balance "@ + zero_padded(remaining as int, 0),
        Conflict::NegativeGrossPay => "gross_pay must be non-negative"@,
        Conflict::InvalidDeliveryDate(s) => "invalid delivery_date: "@ + s@,
        Conflict::InsufficientBalance => "insufficient retainer balance"@,
        Conflict::InvalidPaymentType => "payment_type must be one of: card, bank_account, paypal"@,
    }
}

impl Conflict {
    /// The text of the conflict, as it is reported.
    pub fn message(&self) -> (r: String)
        ensures
            r@ == conflict_text(*self),
    {
        match self {
            Conflict::InvalidUuid(s) => {
                let mut r = String::from_str("invalid UUID: ");
                r.append(s.as_str());
                r
            },
            Conflict::InvalidDate(s) => {
                let mut r = String::from_str("invalid date: ");
                r.append(s.as_str());
                r
            },
            Conflict::InvalidFrequency(s) => {
                let mut r = String::from_str("invalid frequency '");
                r.append(s.as_str());
                r.append("'");
                r
            },
            Conflict::Inactive(t) => match t {
                Template::JournalEntry => String::from_str("recurring journal entry is inactive"),
                Template::Bill => String::from_str("recurring bill is inactive"),
                Template::Invoice => String::from_str("recurring invoice is inactive"),
            },
            Conflict::InvalidBillingCycle(s) => {
                let mut r = String::from_str("invalid billing_cycle '");
                r.append(s.as_str());
                r.append("'");
                r
            },
            Conflict::SubscriptionNotBillable => String::from_str("subscription must be active or trialing to bill"),
            Conflict::InvalidScheduleFrequency => String::from_str("frequency must be one of: daily, weekly, monthly, quarterly"),
            Conflict::InvalidLeaseType(s) => {
                let mut r = String::from_str("invalid lease_type: ");
                r.append(s.as_str());
                r
            },
            Conflict::InvalidPaymentFrequency(s) => {
                let mut r = String::from_str("invalid payment_frequency: ");
                r.append(s.as_str());
                r
            },
            Conflict::EndNotAfterStart => String::from_str("end_date must be after start_date"),
            Conflict::EndNotAfterCommencement => String::from_str("end_date must be after commencement_date"),
            Conflict::PeriodNotInSchedule => String::from_str("period_date not in lease schedule"),
            Conflict::PaymentAlreadyRecorded => String::from_str("payment already recorded for this period"),
            Conflict::TooFewLines => String::from_str("journal entry must have at least two lines"),
            Conflict::Unbalanced { debit, credit } => {
                let mut r = String::from_str("debits (");
                r = prefixed_zero_padded(r.as_str(), *debit, 0);
                r.append(") must equal credits (");
                r = prefixed_zero_padded(r.as_str(), *credit, 0);
                r.append(")");
                r
            },
            Conflict::InvalidRevRecMethod(s) => {
                let mut r = String::from_str("invalid rev-rec method '");
                r.append(s.as_str());
                r.append("'");
                r
            },
            Conflict::NonPositiveTotal => String::from_str("total_amount must be positive"),
            Conflict::NoPeriods => String::from_str("no periods found in date range"),
            Conflict::ReceiptNotPosted => String::from_str("landed costs can only be added to posted GRNs"),
            Conflict::NoLinesToAllocate => String::from_str("GRN has no lines to allocate to"),
            Conflict::ZeroTotalWeight => String::from_str("cannot allocate: total weight is zero"),
            Conflict::InvalidStatus(m) => m.clone(),
            Conflict::NoUninvoicedLines => String::from_str("no uninvoiced lines to convert"),
            Conflict::RefundOfVoidedPayment => String::from_str("cannot refund a voided payment"),
            Conflict::InvalidRefundAmount => String::from_str("refund amount must be positive and not exceed payment amount"),
            Conflict::ClaimExceedsContract { claimed_pct, requested_pct } => {
                let mut r = String::from_str("cumulative claim percentage would exceed 100% (already claimed ");
                r = prefixed_zero_padded(r.as_str(), *claimed_pct, 0);
                r.append("%, requested ");
                r = prefixed_zero_padded(r.as_str(), *requested_pct, 0);
                r.append("%)");
                r
            },
            Conflict::ClaimNotApproved => String::from_str("claim must be approved before invoicing"),
            Conflict::ProjectHasNoContact => String::from_str("project has no contact to invoice"),
            Conflict::RetainageAlreadyReleased => String::from_str("retainage has already been released for this project"),
            Conflict::NoRetainage => String::from_str("no retainage to release for this project"),
            Conflict::NoPayrollEntries => String::from_str("no payroll entries to post"),
            Conflict::AlreadyPosted => String::from_str("GRN is already posted"),
            Conflict::InvalidPeriod(s) => {
                let mut r = String::from_str("invalid period '");
                r.append(s.as_str());
                r.append("'; expected YYYY-MM");
                r
            },
            Conflict::NothingToRecognize => String::from_str("no unposted entries found for this period"),
            Conflict::AlreadyRecognized => String::from_str("entry is already recognized"),
            Conflict::NonPositiveAmount => String::from_str("amount must be positive"),
            Conflict::NegativeQuantity => String::from_str("quantity cannot be negative"),
            Conflict::NonPositiveQuantity => String::from_str("requested_qty must be > 0"),
            Conflict::NoReorderQuantity => String::from_str("requested_qty not provided and product has no reorder_qty set"),
            Conflict::SupplierRequired => String::from_str("supplier_id is required to submit a reorder request"),
            Conflict::MissingContact => String::from_str("quote must have a contact to convert to invoice"),
            Conflict::EndBeforeStart => String::from_str("end_date must be >= start_date"),
            Conflict::NegativeAmount => String::from_str("amounts must be non-negative"),
            Conflict::NegativeNetPay => String::from_str("net_pay would be negative (tax_withheld + deductions exceeds gross_pay)"),
            Conflict::InvalidQuarter => String::from_str("quarter must be 1–4"),
            Conflict::QuarterOutOfRange => String::from_str("quarter must be 1-4"),
            Conflict::OidcStateExpired => String::from_str("OIDC state expired"),
            Conflict::NoInstallments => String::from_str("payment plan must have at least one installment"),
            Conflict::ExceedsRemaining { remaining } => {
                let mut r = String::from_str("amount exceeds remaining balance of ");
                r = prefixed_zero_padded(r.as_str(), *remaining, 0);
                r
            },
            Conflict::ApplyExceedsRemaining { amount, remaining } => {
                let mut r = String::from_str("apply amount ");
                r = prefixed_zero_padded(r.as_str(), *amount, 0);
                r.append(" exceeds remaining balance ");
                r = prefixed_zero_padded(r.as_str(), *remaining, 0);
                r
            },
            Conflict::NegativeGrossPay => String::from_str("gross_pay must be non-negative"),
            Conflict::InvalidDeliveryDate(s) => {
                let mut r = String::from_str("invalid delivery_date: ");
                r.append(s.as_str());
                r
            },
            Conflict::InsufficientBalance => String::from_str("insufficient retainer balance"),
            Conflict::InvalidPaymentType => String::from_str("payment_type must be one of: card, bank_account, paypal"),
        }
    }
}

impl DbError {
    /// The text of the error, as it is reported.
    pub fn message(&self) -> (r: String)
        ensures
            r@ == error_text(*self),
    {
        match self {
            DbError::NotFound => String::from_str("not found"),
            DbError::Conflict(c) => c.message(),
            DbError::Internal(s) => s.clone(),
        }
    }
}

} // verus!
