//! People and payroll taxes: leave requests, payslips, payroll tax liabilities and the
//! figures of tax filings.
use vstd::prelude::*;

use crate::dates::CalDate;
use crate::error::{refuse, status_refusal, Conflict, DbError};
use crate::recurring::div_trunc;
use crate::text::str_eq;

verus! {

/// Leave types and requests.
pub struct LeaveRepo;

impl LeaveRepo {
    /// A leave request cannot end before it starts.
    pub fn check_dates(start_date: CalDate, end_date: CalDate) -> (r: Result<(), DbError>)
        requires
            start_date.valid(),
            end_date.valid(),
        ensures
            r is Ok <==> start_date.before_eq(end_date),
            r is Err ==> r == Err::<(), DbError>(DbError::Conflict(Conflict::EndBeforeStart)),
    {
        if end_date.lt(&start_date) {
            Err(DbError::Conflict(Conflict::EndBeforeStart))
        } else {
            Ok(())
        }
    }

    /// A pending request can be approved, rejected or cancelled; no other status can be
    /// set.
    pub fn check_new_status(new_status: &str) -> (r: Result<(), DbError>)
        ensures
            r is Ok <==> (new_status@ == "approved"@ || new_status@ == "rejected"@ || new_status@
                == "cancelled"@),
            r matches Err(e) ==> status_refusal(
                e,
                "status must be one of: approved, rejected, cancelled"@,
            ),
    {
        if str_eq(new_status, "approved") || str_eq(new_status, "rejected") || str_eq(
            new_status,
            "cancelled",
        ) {
            Ok(())
        } else {
            Err(refuse("status must be one of: approved, rejected, cancelled"))
        }
    }
}

/// Payslips.
pub struct PayslipRepo;

impl PayslipRepo {
    /// A payslip's net pay: gross less tax and deductions. Gross pay must not be negative,
    /// nor may the net pay.
    pub fn net_pay(gross_pay: i64, tax_withheld: i64, deductions: i64) -> (r: Result<i64, DbError>)
        requires
            gross_pay >= 0 ==> i64::MIN <= gross_pay - tax_withheld <= i64::MAX,
            gross_pay >= 0 ==> i64::MIN <= gross_pay - tax_withheld - deductions <= i64::MAX,
        ensures
            gross_pay < 0 ==> r == Err::<i64, DbError>(
                DbError::Conflict(Conflict::NegativeGrossPay),
            ),
            gross_pay >= 0 && gross_pay - tax_withheld - deductions < 0 ==> r == Err::<i64, DbError>(
                DbError::Conflict(Conflict::NegativeNetPay),
            ),
            gross_pay >= 0 && gross_pay - tax_withheld - deductions >= 0 ==> r == Ok::<i64, DbError>(
                (gross_pay - tax_withheld - deductions) as i64,
            ),
    {
        if gross_pay < 0 {
            return Err(DbError::Conflict(Conflict::NegativeGrossPay));
        }
        let net = gross_pay - tax_withheld - deductions;
        if net < 0 {
            return Err(DbError::Conflict(Conflict::NegativeNetPay));
        }
        Ok(net)
    }
}

/// Payroll tax liabilities.
pub struct PayrollTaxRepo;

impl PayrollTaxRepo {
    /// Liabilities cannot be negative.
    pub fn check_amounts(employee_amount: i64, employer_amount: i64) -> (r: Result<(), DbError>)
        ensures
            r is Ok <==> (employee_amount >= 0 && employer_amount >= 0),
            r is Err ==> r == Err::<(), DbError>(DbError::Conflict(Conflict::NegativeAmount)),
    {
        if employee_amount < 0 || employer_amount < 0 {
            Err(DbError::Conflict(Conflict::NegativeAmount))
        } else {
            Ok(())
        }
    }

    /// Only accrued liabilities can be paid; anything not yet voided can be voided.
    pub fn check_pay(status: &str) -> (r: Result<(), DbError>)
        ensures
            r is Ok <==> status@ == "accrued"@,
            r matches Err(e) ==> status_refusal(
                e,
                "tax liability must be in accrued status to mark paid"@,
            ),
    {
        if str_eq(status, "accrued") {
            Ok(())
        } else {
            Err(refuse("tax liability must be in accrued status to mark paid"))
        }
    }
}

/// The figures of a quarterly Form 941.
pub struct Form941Figures {
    pub month_start: i32,
    pub month_end: i32,
    pub social_security_tax: i64,
    pub medicare_tax: i64,
    pub total_taxes: i64,
}

/// Social security tax on wages: 12.4%, truncated.
pub open spec fn social_security_of(wages: int) -> int {
    div_trunc(wages * 124, 1000)
}

/// Medicare tax on wages: 2.9%, truncated.
pub open spec fn medicare_of(wages: int) -> int {
    div_trunc(wages * 29, 1000)
}

/// Tax filings.
pub struct TaxFilingRepo;

impl TaxFilingRepo {
    /// Form 941 for a quarter (1 to 4): its months, social security and medicare tax on
    /// the quarter's wages, and the total with income tax withheld.
    pub fn form_941(quarter: i32, total_wages: i64, total_tax_withheld: i64) -> (r: Result<
        Form941Figures,
        DbError,
    >)
        requires
            1 <= quarter <= 4 ==> i64::MIN <= total_wages * 124 <= i64::MAX,
            1 <= quarter <= 4 ==> i64::MIN <= total_tax_withheld + social_security_of(
                total_wages as int,
            ) + medicare_of(total_wages as int) <= i64::MAX,
            1 <= quarter <= 4 ==> i64::MIN <= total_tax_withheld + social_security_of(
                total_wages as int,
            ) <= i64::MAX,
        ensures
            !(1 <= quarter <= 4) ==> r == Err::<Form941Figures, DbError>(
                DbError::Conflict(Conflict::InvalidQuarter),
            ),
            1 <= quarter <= 4 ==> (r matches Ok(f) && f.month_start == (quarter - 1) * 3 + 1
                && f.month_end == quarter * 3 && f.social_security_tax == social_security_of(
                total_wages as int,
            ) && f.medicare_tax == medicare_of(total_wages as int) && f.total_taxes
                == total_tax_withheld + f.social_security_tax + f.medicare_tax),
    {
        if quarter < 1 || quarter > 4 {
            return Err(DbError::Conflict(Conflict::InvalidQuarter));
        }
        let ss = total_wages * 124 / 1000;
        let medicare = total_wages * 29 / 1000;
        Ok(
            Form941Figures {
                month_start: (quarter - 1) * 3 + 1,
                month_end: quarter * 3,
                social_security_tax: ss,
                medicare_tax: medicare,
                total_taxes: total_tax_withheld + ss + medicare,
            },
        )
    }

    /// Net GST/HST: tax collected less input tax credits.
    pub fn net_hst(gst_collected: i64, input_tax_credits: i64) -> (r: i64)
        requires
            i64::MIN <= gst_collected - input_tax_credits <= i64::MAX,
        ensures
            r == gst_collected - input_tax_credits,
    {
        gst_collected - input_tax_credits
    }
}

} // verus!
