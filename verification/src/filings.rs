//! Year-end slips: T4 contributions and totals, T4A and 1099 totals, and the CRA e-file
//! summaries.
use vstd::prelude::*;

use crate::recurring::div_trunc;
use crate::seqs::{lemma_sum_take_succ, lemma_take_full, prefix_sums_fit, sum};
use crate::summaries::{column_total, ints};
use crate::text::{prefixed_zero_padded, zero_padded};
use crate::workforce::TaxFilingRepo;

verus! {

/// A year's pay of one employee.
pub struct T4Pay {
    pub gross_pay: i64,
    pub income_tax_deducted: i64,
}

/// An employee's CPP and EI contributions on a slip.
pub struct T4Contributions {
    pub cpp_employee: i64,
    pub ei_employee: i64,
}

/// The T4 slips' contributions and the summary totals.
pub struct T4Totals {
    pub slips: Vec<T4Contributions>,
    pub total_employment_income: i64,
    pub total_income_tax_deducted: i64,
    pub total_cpp_employee: i64,
    pub total_ei_employee: i64,
    pub total_cpp_employer: i64,
    pub total_ei_employer: i64,
}

/// CPP employee contribution: 5.95% of earnings, truncated.
pub open spec fn cpp_of(gross: int) -> int {
    div_trunc(gross * 595, 10_000)
}

/// EI employee premium: 1.66% of earnings, truncated.
pub open spec fn ei_of(gross: int) -> int {
    div_trunc(gross * 166, 10_000)
}

/// One column of the T4 figures: 0 income, 1 tax deducted, 2 CPP, 3 EI.
pub open spec fn t4_column(rs: Seq<T4Pay>, c: int) -> Seq<int> {
    rs.map_values(
        |r: T4Pay|
            if c == 0 {
                r.gross_pay as int
            } else if c == 1 {
                r.income_tax_deducted as int
            } else if c == 2 {
                cpp_of(r.gross_pay as int)
            } else {
                ei_of(r.gross_pay as int)
            },
    )
}

/// The CPP (0) or EI (1) contributions of the slips.
pub open spec fn slip_column(slips: Seq<T4Contributions>, c: int) -> Seq<int> {
    slips.map_values(
        |s: T4Contributions|
            if c == 0 {
                s.cpp_employee as int
            } else {
                s.ei_employee as int
            },
    )
}

/// The slips' figures and totals stay within 64 bits.
pub open spec fn t4_fits(rs: Seq<T4Pay>) -> bool {
    &&& forall|i: int| 0 <= i < rs.len() ==> i64::MIN <= (#[trigger] rs[i]).gross_pay * 595 <= i64::MAX
    &&& forall|c: int| 0 <= c < 4 ==> prefix_sums_fit(#[trigger] t4_column(rs, c))
    &&& i64::MIN <= sum(t4_column(rs, 3)) * 140 <= i64::MAX
}

/// An integer as `{}` prints it.
pub open spec fn int_text(n: int) -> Seq<char> {
    zero_padded(n, 0)
}

/// The CRA T4 summary envelope.
pub open spec fn t4_xml_text(
    year: int,
    income: int,
    tax: int,
    cpp: int,
    ei: int,
    count: int,
) -> Seq<char> {
    "<?xml version=\"1.0\" encoding=\"UTF-8\"?>\n<T4Slip xmlns=\"http://www.cra-arc.gc.ca/xmlns/t4/2023\" year=\""@
        + int_text(year) + "\">\n  <T4Summary>\n    <TaxYear>"@ + int_text(year)
        + "</TaxYear>\n    <TotalEmploymentIncome>"@ + int_text(income)
        + "</TotalEmploymentIncome>\n    <TotalIncomeTaxDeducted>"@ + int_text(tax)
        + "</TotalIncomeTaxDeducted>\n    <TotalCPPContributions>"@ + int_text(cpp)
        + "</TotalCPPContributions>\n    <TotalEIPremiums>"@ + int_text(ei)
        + "</TotalEIPremiums>\n    <SlipCount>"@ + int_text(count)
        + "</SlipCount>\n  </T4Summary>\n</T4Slip>"@
}

/// The CRA T4A summary envelope.
pub open spec fn t4a_xml_text(year: int, total: int, count: int) -> Seq<char> {
    "<?xml version=\"1.0\" encoding=\"UTF-8\"?>\n<T4ASlips xmlns=\"http://www.cra-arc.gc.ca/xmlns/t4a/2023\" year=\""@
        + int_text(year) + "\">\n  <T4ASummary>\n    <TaxYear>"@ + int_text(year)
        + "</TaxYear>\n    <TotalFeesForServices>"@ + int_text(total)
        + "</TotalFeesForServices>\n    <SlipCount>"@ + int_text(count)
        + "</SlipCount>\n  </T4ASummary>\n</T4ASlips>"@
}

/// Appends `n` as `{}` prints it.
fn append_int(s: &mut String, n: i64)
    ensures
        final(s)@ == old(s)@ + int_text(n as int),
{
    let t = prefixed_zero_padded(s.as_str(), n, 0);
    *s = t;
}

impl TaxFilingRepo {
    /// The T4 slips of a year: each employee's CPP (5.95%) and EI (1.66%) contributions,
    /// truncated, and the summary: the totals of income, tax, CPP and EI, the employer's
    /// CPP equal to the employees' and the employer's EI 1.4 times theirs, truncated.
    pub fn t4_totals(rows: &Vec<T4Pay>) -> (r: T4Totals)
        requires
            t4_fits(rows@),
        ensures
            r.slips.len() == rows.len(),
            forall|i: int|
                0 <= i < rows.len() ==> (#[trigger] r.slips@[i]).cpp_employee == cpp_of(
                    rows@[i].gross_pay as int,
                ) && r.slips@[i].ei_employee == ei_of(rows@[i].gross_pay as int),
            r.total_employment_income == sum(t4_column(rows@, 0)),
            r.total_income_tax_deducted == sum(t4_column(rows@, 1)),
            r.total_cpp_employee == sum(t4_column(rows@, 2)),
            r.total_ei_employee == sum(t4_column(rows@, 3)),
            r.total_cpp_employee == sum(slip_column(r.slips@, 0)),
            r.total_ei_employee == sum(slip_column(r.slips@, 1)),
            r.total_cpp_employer == r.total_cpp_employee,
            r.total_ei_employer == div_trunc(r.total_ei_employee * 140, 100),
    {
        let ghost rs = rows@;
        proof {
            assert(prefix_sums_fit(t4_column(rs, 0)));
            assert(prefix_sums_fit(t4_column(rs, 1)));
            assert(prefix_sums_fit(t4_column(rs, 2)));
            assert(prefix_sums_fit(t4_column(rs, 3)));
        }
        let mut slips: Vec<T4Contributions> = Vec::new();
        let mut income: i64 = 0;
        let mut tax: i64 = 0;
        let mut cpp: i64 = 0;
        let mut ei: i64 = 0;
        let mut i: usize = 0;
        while i < rows.len()
            invariant
                i <= rows.len(),
                rs == rows@,
                forall|k: int|
                    0 <= k < rows.len() ==> i64::MIN <= (#[trigger] rs[k]).gross_pay * 595
                        <= i64::MAX,
                prefix_sums_fit(t4_column(rs, 0)),
                prefix_sums_fit(t4_column(rs, 1)),
                prefix_sums_fit(t4_column(rs, 2)),
                prefix_sums_fit(t4_column(rs, 3)),
                slips.len() == i,
                forall|k: int|
                    0 <= k < i ==> (#[trigger] slips@[k]).cpp_employee == cpp_of(
                        rs[k].gross_pay as int,
                    ) && slips@[k].ei_employee == ei_of(rs[k].gross_pay as int),
                income == sum(t4_column(rs, 0).take(i as int)),
                tax == sum(t4_column(rs, 1).take(i as int)),
                cpp == sum(t4_column(rs, 2).take(i as int)),
                ei == sum(t4_column(rs, 3).take(i as int)),
            decreases rows.len() - i,
        {
            let g = rows[i].gross_pay;
            proof {
                lemma_sum_take_succ(t4_column(rs, 0), i as int);
                lemma_sum_take_succ(t4_column(rs, 1), i as int);
                lemma_sum_take_succ(t4_column(rs, 2), i as int);
                lemma_sum_take_succ(t4_column(rs, 3), i as int);
                assert(i64::MIN <= sum(t4_column(rs, 0).take(i + 1)) <= i64::MAX);
                assert(i64::MIN <= sum(t4_column(rs, 1).take(i + 1)) <= i64::MAX);
                assert(i64::MIN <= sum(t4_column(rs, 2).take(i + 1)) <= i64::MAX);
                assert(i64::MIN <= sum(t4_column(rs, 3).take(i + 1)) <= i64::MAX);
                assert(i64::MIN <= g * 595 <= i64::MAX);
                assert(i64::MIN <= g * 166 <= i64::MAX) by (nonlinear_arith)
                    requires
                        i64::MIN <= g * 595 <= i64::MAX,
                ;
            }
            let c = g * 595 / 10_000;
            let e = g * 166 / 10_000;
            slips.push(T4Contributions { cpp_employee: c, ei_employee: e });
            income = income + g;
            tax = tax + rows[i].income_tax_deducted;
            cpp = cpp + c;
            ei = ei + e;
            i = i + 1;
        }
        proof {
            lemma_take_full(t4_column(rs, 0));
            lemma_take_full(t4_column(rs, 1));
            lemma_take_full(t4_column(rs, 2));
            lemma_take_full(t4_column(rs, 3));
            assert(slip_column(slips@, 0) =~= t4_column(rs, 2));
            assert(slip_column(slips@, 1) =~= t4_column(rs, 3));
        }
        T4Totals {
            slips,
            total_employment_income: income,
            total_income_tax_deducted: tax,
            total_cpp_employee: cpp,
            total_ei_employee: ei,
            total_cpp_employer: cpp,
            total_ei_employer: ei * 140 / 100,
        }
    }

    /// The CRA T4 summary for a year's totals and number of slips.
    pub fn t4_xml(
        year: i32,
        income: i64,
        tax: i64,
        cpp: i64,
        ei: i64,
        slip_count: usize,
    ) -> (r: String)
        requires
            slip_count <= i64::MAX,
        ensures
            r@ == t4_xml_text(
                year as int,
                income as int,
                tax as int,
                cpp as int,
                ei as int,
                slip_count as int,
            ),
    {
        let mut s = String::from_str(
            "<?xml version=\"1.0\" encoding=\"UTF-8\"?>\n<T4Slip xmlns=\"http://www.cra-arc.gc.ca/xmlns/t4/2023\" year=\"",
        );
        append_int(&mut s, year as i64);
        s.append("\">\n  <T4Summary>\n    <TaxYear>");
        append_int(&mut s, year as i64);
        s.append("</TaxYear>\n    <TotalEmploymentIncome>");
        append_int(&mut s, income);
        s.append("</TotalEmploymentIncome>\n    <TotalIncomeTaxDeducted>");
        append_int(&mut s, tax);
        s.append("</TotalIncomeTaxDeducted>\n    <TotalCPPContributions>");
        append_int(&mut s, cpp);
        s.append("</TotalCPPContributions>\n    <TotalEIPremiums>");
        append_int(&mut s, ei);
        s.append("</TotalEIPremiums>\n    <SlipCount>");
        append_int(&mut s, slip_count as i64);
        s.append("</SlipCount>\n  </T4Summary>\n</T4Slip>");
        s
    }

    /// The CRA T4A summary for a year's total fees and number of slips.
    pub fn t4a_xml(year: i32, total: i64, slip_count: usize) -> (r: String)
        requires
            slip_count <= i64::MAX,
        ensures
            r@ == t4a_xml_text(year as int, total as int, slip_count as int),
    {
        let mut s = String::from_str(
            "<?xml version=\"1.0\" encoding=\"UTF-8\"?>\n<T4ASlips xmlns=\"http://www.cra-arc.gc.ca/xmlns/t4a/2023\" year=\"",
        );
        append_int(&mut s, year as i64);
        s.append("\">\n  <T4ASummary>\n    <TaxYear>");
        append_int(&mut s, year as i64);
        s.append("</TaxYear>\n    <TotalFeesForServices>");
        append_int(&mut s, total);
        s.append("</TotalFeesForServices>\n    <SlipCount>");
        append_int(&mut s, slip_count as i64);
        s.append("</SlipCount>\n  </T4ASummary>\n</T4ASlips>");
        s
    }

    /// The total paid to the contractors on 1099 or T4A slips.
    pub fn slips_total(paid: &Vec<i64>) -> (r: i64)
        requires
            prefix_sums_fit(ints(paid@)),
        ensures
            r == sum(ints(paid@)),
    {
        column_total(paid)
    }
}

} // verus!
