use oxidebooks_db::error::{Conflict, DbError};
use oxidebooks_db::payroll::RunTotals;
use oxidebooks_db::reports::ReportRepo;
use oxidebooks_db::summaries::{column_total, PriceListRepo, ProductSales, TaxFigures, TaxLiability};

#[test]
fn tax_summary_nets_each_rate_and_totals() {
    let rows = vec![
        TaxFigures { tax_collected: 500, tax_paid: 200 },
        TaxFigures { tax_collected: 100, tax_paid: 350 },
    ];
    let t = ReportRepo::tax_summary(&rows);
    assert_eq!(t.nets, vec![300, -250]);
    assert_eq!(t.total_collected, 600);
    assert_eq!(t.total_paid, 550);
    assert_eq!(t.net, 50);
    assert_eq!(t.net, t.nets.iter().sum::<i64>());
}

#[test]
fn tax_summary_of_no_rates_is_zero() {
    let t = ReportRepo::tax_summary(&Vec::new());
    assert!(t.nets.is_empty());
    assert_eq!((t.total_collected, t.total_paid, t.net), (0, 0, 0));
}

#[test]
fn payroll_summary_sums_runs() {
    let runs = vec![
        RunTotals { total_gross: 10_000, total_tax: 2_000, total_net: 7_500 },
        RunTotals { total_gross: 5_000, total_tax: 1_000, total_net: 4_000 },
    ];
    let t = ReportRepo::payroll_summary(&runs);
    assert_eq!((t.total_gross, t.total_tax, t.total_net), (15_000, 3_000, 11_500));
}

#[test]
fn sales_by_product_sums_each_column() {
    let rows = vec![
        ProductSales { gross_amount: 1000, discount_amount: 100, net_amount: 900, tax_amount: 90 },
        ProductSales { gross_amount: 500, discount_amount: 0, net_amount: 500, tax_amount: 65 },
    ];
    let t = ReportRepo::sales_by_product(&rows);
    assert_eq!((t.total_gross, t.total_discount, t.total_net, t.total_tax), (1500, 100, 1400, 155));
}

#[test]
fn cash_basis_profit_and_loss() {
    let (expenses, net) = ReportRepo::profit_loss_cash(10_000, &vec![3_000, 1_500]);
    assert_eq!(expenses, 4_500);
    assert_eq!(net, 5_500);
    assert_eq!(ReportRepo::profit_loss_cash(0, &vec![]), (0, 0));
}

#[test]
fn consolidation_combines_organizations() {
    let (rev, exp, net) = ReportRepo::consolidate(&vec![(1000, 400), (200, 500)]);
    assert_eq!((rev, exp, net), (1200, 900, 300));
    assert_eq!(net, (1000 - 400) + (200 - 500));
}

#[test]
fn pl_change_in_basis_points() {
    assert_eq!(ReportRepo::pl_change(1500, 1000), (500, 5000));
    assert_eq!(ReportRepo::pl_change(500, 1000), (-500, -5000));
    assert_eq!(ReportRepo::pl_change(700, 0), (700, 0));
    // A loss that shrinks: the change is divided by a negative prior net income.
    assert_eq!(ReportRepo::pl_change(-100, -400), (300, -7500));
    // Truncation toward zero.
    assert_eq!(ReportRepo::pl_change(1, 3), (-2, -6666));
    assert_eq!(ReportRepo::pl_change(4, -3), (7, -23333));
}

#[test]
fn report_quarter_must_be_one_to_four() {
    assert!(ReportRepo::check_report_quarter(1).is_ok());
    assert!(ReportRepo::check_report_quarter(4).is_ok());
    assert_eq!(
        ReportRepo::check_report_quarter(0),
        Err(DbError::Conflict(Conflict::QuarterOutOfRange))
    );
    assert_eq!(
        ReportRepo::check_report_quarter(5),
        Err(DbError::Conflict(Conflict::QuarterOutOfRange))
    );
}

fn liability(t: &str, employee: i64, employer: i64) -> TaxLiability {
    TaxLiability { tax_type: t.to_string(), employee_amount: employee, employer_amount: employer }
}

#[test]
fn form_941_deposits_by_kind() {
    let rows = vec![
        liability("federal_income", 1_000, 0),
        liability("social_security", 620, 620),
        liability("medicare", 145, 145),
        liability("state_income", 300, 50),
    ];
    let d = ReportRepo::form_941_deposits(&rows);
    assert_eq!(d.federal_income_tax, 1_000);
    assert_eq!(d.social_security_employee, 620);
    assert_eq!(d.social_security_employer, 620);
    assert_eq!(d.medicare_employee, 145);
    assert_eq!(d.medicare_employer, 145);
    // Every liability is deposited, also those of other types.
    assert_eq!(d.total_deposits, 1_000 + 1_240 + 290 + 350);
}

#[test]
fn spend_analysis_total() {
    assert_eq!(PriceListRepo::spend_total(&vec![1200, 300, -50]), 1450);
    assert_eq!(PriceListRepo::spend_total(&vec![]), 0);
    assert_eq!(column_total(&vec![i64::MAX, -1, 1]), i64::MAX);
}
