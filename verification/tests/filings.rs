use oxidebooks_db::filings::{T4Pay, T4Totals};
use oxidebooks_db::workforce::TaxFilingRepo;

fn totals(rows: &[(i64, i64)]) -> T4Totals {
    let pay: Vec<T4Pay> = rows
        .iter()
        .map(|&(gross_pay, income_tax_deducted)| T4Pay { gross_pay, income_tax_deducted })
        .collect();
    TaxFilingRepo::t4_totals(&pay)
}

#[test]
fn t4_contributions_are_truncated_rates() {
    let t = totals(&[(100_000, 20_000), (33_333, 5_000)]);
    assert_eq!(t.slips.len(), 2);
    assert_eq!(t.slips[0].cpp_employee, 5_950);
    assert_eq!(t.slips[0].ei_employee, 1_660);
    // 33_333 * 595 / 10_000 = 1983.31..., 33_333 * 166 / 10_000 = 553.32...
    assert_eq!(t.slips[1].cpp_employee, 1_983);
    assert_eq!(t.slips[1].ei_employee, 553);
    assert_eq!(t.total_employment_income, 133_333);
    assert_eq!(t.total_income_tax_deducted, 25_000);
    assert_eq!(t.total_cpp_employee, 7_933);
    assert_eq!(t.total_ei_employee, 2_213);
}

#[test]
fn t4_employer_matches_cpp_and_pays_ei_times_1_4() {
    let t = totals(&[(100_000, 0), (33_333, 0)]);
    assert_eq!(t.total_cpp_employer, t.total_cpp_employee);
    // 2_213 * 140 / 100 = 3098.2
    assert_eq!(t.total_ei_employer, 3_098);
}

#[test]
fn t4_totals_are_the_slip_sums() {
    let t = totals(&[(50_000, 1), (70_001, 2), (1, 3)]);
    let cpp: i64 = t.slips.iter().map(|s| s.cpp_employee).sum();
    let ei: i64 = t.slips.iter().map(|s| s.ei_employee).sum();
    assert_eq!(t.total_cpp_employee, cpp);
    assert_eq!(t.total_ei_employee, ei);
}

#[test]
fn t4_of_no_employees_is_zero() {
    let t = totals(&[]);
    assert!(t.slips.is_empty());
    assert_eq!(
        (
            t.total_employment_income,
            t.total_income_tax_deducted,
            t.total_cpp_employee,
            t.total_ei_employee,
            t.total_cpp_employer,
            t.total_ei_employer
        ),
        (0, 0, 0, 0, 0, 0)
    );
}

#[test]
fn t4_negative_pay_truncates_toward_zero() {
    let t = totals(&[(-10_001, 0)]);
    // -10_001 * 595 / 10_000 = -595.05 -> -595
    assert_eq!(t.slips[0].cpp_employee, -595);
    assert_eq!(t.slips[0].ei_employee, -166);
}

#[test]
fn t4_xml_matches_the_cra_envelope() {
    let x = TaxFilingRepo::t4_xml(2024, 133_333, 25_000, 7_933, 2_213, 2);
    let expected = format!(
        r#"<?xml version="1.0" encoding="UTF-8"?>
<T4Slip xmlns="http://www.cra-arc.gc.ca/xmlns/t4/2023" year="{year}">
  <T4Summary>
    <TaxYear>{year}</TaxYear>
    <TotalEmploymentIncome>{total_income}</TotalEmploymentIncome>
    <TotalIncomeTaxDeducted>{total_tax}</TotalIncomeTaxDeducted>
    <TotalCPPContributions>{total_cpp}</TotalCPPContributions>
    <TotalEIPremiums>{total_ei}</TotalEIPremiums>
    <SlipCount>{}</SlipCount>
  </T4Summary>
</T4Slip>"#,
        2,
        year = 2024,
        total_income = 133_333,
        total_tax = 25_000,
        total_cpp = 7_933,
        total_ei = 2_213
    );
    assert_eq!(x, expected);
}

#[test]
fn t4_xml_prints_negative_totals() {
    let x = TaxFilingRepo::t4_xml(2023, -5, 0, -1, 0, 0);
    assert!(x.contains("<TotalEmploymentIncome>-5</TotalEmploymentIncome>"));
    assert!(x.contains("<TotalCPPContributions>-1</TotalCPPContributions>"));
    assert!(x.contains("<SlipCount>0</SlipCount>"));
}

#[test]
fn t4a_xml_matches_the_cra_envelope() {
    let x = TaxFilingRepo::t4a_xml(2024, 125_000, 3);
    let expected = format!(
        r#"<?xml version="1.0" encoding="UTF-8"?>
<T4ASlips xmlns="http://www.cra-arc.gc.ca/xmlns/t4a/2023" year="{year}">
  <T4ASummary>
    <TaxYear>{year}</TaxYear>
    <TotalFeesForServices>{total}</TotalFeesForServices>
    <SlipCount>{}</SlipCount>
  </T4ASummary>
</T4ASlips>"#,
        3,
        year = 2024,
        total = 125_000
    );
    assert_eq!(x, expected);
}

#[test]
fn slips_total_sums_the_payments() {
    assert_eq!(TaxFilingRepo::slips_total(&vec![60_000, 75_050, 100_000]), 235_050);
    assert_eq!(TaxFilingRepo::slips_total(&Vec::new()), 0);
}
