use oxidebooks_db::aging::OpenItem;
use oxidebooks_db::cash_flow::AccountNet;
use oxidebooks_db::costing::{CostRow, ProjectBudget};
use oxidebooks_db::dates::CalDate;
use oxidebooks_db::forecast::DueAmount;
use oxidebooks_db::profitability::{ProjectFigures, VendorFigures};
use oxidebooks_db::reports::{AccountType, LedgerEntry, ReportRepo};
use oxidebooks_db::statements::{AccountTotals, SearchKind};

fn d(y: i32, m: u8, day: u8) -> CalDate {
    CalDate { year: y, month: m, day }
}

fn cost(pid: u128, cc: Option<u128>, code: Option<&str>, total: i64) -> CostRow {
    CostRow {
        project_id: pid,
        cost_code_id: cc,
        cost_code: code.map(|s| s.to_string()),
        cost_code_name: code.map(|s| format!("{s} name")),
        cost_type: code.map(|_| "labor".to_string()),
        total,
    }
}

#[test]
fn job_costing_groups_cost_codes() {
    let projects = vec![
        ProjectBudget { project_id: 1, project_name: "Alpha".into(), budget: 1000 },
        ProjectBudget { project_id: 2, project_name: "Idle".into(), budget: 0 },
    ];
    let time = vec![cost(1, Some(7), Some("B200"), 300), cost(1, None, None, 50)];
    let exp = vec![cost(1, Some(7), Some("B200"), 20), cost(1, Some(8), Some("A100"), 100)];
    let r = ReportRepo::job_costing(d(2024, 1, 1), d(2024, 12, 31), &projects, &time, &exp);
    assert_eq!(r.rows.len(), 1);
    let row = &r.rows[0];
    assert_eq!((row.time_cost, row.expense_cost, row.total_actual, row.variance), (350, 120, 470, 530));
    let codes: Vec<(&str, i64)> = row.cost_codes.iter().map(|c| (c.cost_code.as_str(), c.actual_cost)).collect();
    assert_eq!(codes, vec![("A100", 100), ("B200", 320), ("uncoded", 50)]);
    assert_eq!(row.cost_codes[2].cost_code_name, "Uncoded");
    assert_eq!(row.cost_codes[2].cost_type, "other");
    let sum: i64 = row.cost_codes.iter().map(|c| c.actual_cost).sum();
    assert_eq!(sum, row.total_actual);
    assert_eq!((r.total_budget, r.total_actual, r.total_variance), (1000, 470, 530));
}

fn entry(debit: i64, credit: i64) -> LedgerEntry {
    LedgerEntry { reference_id: 1, date: d(2024, 1, 2), description: "x".into(), reference: None, debit, credit }
}

#[test]
fn account_ledger_running_balance() {
    let es = vec![entry(100, 0), entry(0, 30)];
    let l = ReportRepo::account_ledger("asset", 500, 200, &es);
    assert_eq!(l.account_type, AccountType::Asset);
    assert_eq!(l.opening_balance, 300);
    assert_eq!(l.lines[0].running_balance, 400);
    assert_eq!(l.lines[1].running_balance, 370);
    assert_eq!(l.closing_balance, 370);
    let r = ReportRepo::account_ledger("revenue", 0, 50, &es);
    assert_eq!(r.opening_balance, 50);
    assert_eq!(r.closing_balance, 50 - 100 + 30);
    let u = ReportRepo::account_ledger("mystery", 10, 0, &vec![]);
    assert_eq!((u.account_type, u.closing_balance), (AccountType::Asset, 10));
}

#[test]
fn contact_statement_balance() {
    let s = ReportRepo::contact_statement(1000, 400, &vec![entry(250, 0), entry(0, 850)]);
    assert_eq!(s.opening_balance, 600);
    assert_eq!(s.lines[0].running_balance, 850);
    assert_eq!(s.closing_balance, 0);
}

fn net(t: &str, n: i64) -> AccountNet {
    AccountNet { account_id: 1, account_code: "1".into(), account_name: t.into(), account_type: t.into(), net: n }
}

#[test]
fn cash_flow_classifies_accounts() {
    let rows = vec![net("revenue", -500), net("expense", 200), net("asset", 100), net("liability", -50), net("other", 7), net("equity", 0)];
    let r = ReportRepo::cash_flow(&rows, 1000);
    assert_eq!(r.operating.items.len(), 2);
    // revenue 500 less expenses 200: the operating lines add up to net income
    assert_eq!(r.operating.total, 300);
    assert_eq!(r.operating.items[0].amount, 500);
    assert_eq!(r.operating.items[1].amount, -200);
    assert_eq!(r.investing.total, -100);
    assert_eq!(r.financing.items.len(), 1);
    assert_eq!(r.financing.total, 50);
    assert_eq!(r.net_change, 250);
    assert_eq!(r.closing_cash, 1250);
}

#[test]
fn aging_buckets_by_days_overdue() {
    let as_of = d(2024, 3, 31);
    let items = vec![
        OpenItem { contact_id: 2, contact_name: "Zed".into(), due_date: d(2024, 3, 31), balance: 100 },
        OpenItem { contact_id: 1, contact_name: "Acme".into(), due_date: d(2024, 3, 1), balance: 40 },
        OpenItem { contact_id: 1, contact_name: "Acme".into(), due_date: d(2023, 12, 1), balance: 60 },
        OpenItem { contact_id: 3, contact_name: "Nil".into(), due_date: d(2024, 1, 1), balance: 0 },
    ];
    let r = ReportRepo::aging(as_of, &items);
    assert_eq!(r.rows.len(), 2);
    assert_eq!(r.rows[0].contact_name, "Acme");
    assert_eq!((r.rows[0].days_1_30, r.rows[0].days_over_90, r.rows[0].total), (40, 60, 100));
    assert_eq!((r.rows[1].contact_name.as_str(), r.rows[1].current), ("Zed", 100));
    assert_eq!(r.totals.contact_name, "Total");
    assert_eq!((r.totals.current, r.totals.days_1_30, r.totals.days_over_90, r.totals.total), (100, 40, 60, 200));
}

#[test]
fn forecast_buckets_by_week() {
    let ar = vec![DueAmount { due_date: d(2024, 1, 3), amount: 100 }, DueAmount { due_date: d(2024, 3, 1), amount: 50 }];
    let ap = vec![DueAmount { due_date: d(2023, 12, 1), amount: 30 }];
    let f = ReportRepo::cash_flow_forecast(d(2024, 1, 1), 14, 1000, &ar, &ap);
    assert_eq!(f.buckets.len(), 2);
    assert_eq!(f.buckets[0].period_start, d(2024, 1, 1));
    assert_eq!(f.buckets[0].period_end, d(2024, 1, 7));
    assert_eq!((f.buckets[0].inflows, f.buckets[0].outflows, f.buckets[0].running_balance), (100, 30, 1070));
    assert_eq!(f.buckets[1].period_end, d(2024, 1, 14));
    assert_eq!((f.buckets[1].inflows, f.buckets[1].running_balance), (50, 1120));
    assert_eq!(f.closing_balance, 1120);
    let short = ReportRepo::cash_flow_forecast(d(2024, 1, 1), 3, 0, &vec![], &vec![]);
    assert_eq!(short.buckets.len(), 1);
    assert_eq!(short.buckets[0].period_end, d(2024, 1, 4));
}

fn totals(t: &str, dr: i64, cr: i64) -> AccountTotals {
    AccountTotals { account_id: 1, account_code: "1".into(), account_name: t.into(), account_type: t.into(), total_debit: dr, total_credit: cr }
}

#[test]
fn profit_loss_and_balance_sheet() {
    let pl = ReportRepo::profit_loss(&vec![totals("revenue", 10, 510), totals("expense", 200, 0), totals("cost", 50, 0)]);
    assert_eq!((pl.revenue.total, pl.expenses.total, pl.net_income), (500, 250, 250));
    let bs = ReportRepo::balance_sheet(&vec![totals("asset", 900, 100), totals("liability", 0, 300), totals("equity", 0, 500)]);
    assert_eq!((bs.assets.total, bs.liabilities.total, bs.equity.total), (800, 300, 500));
    assert!(bs.is_balanced);
    let tb = ReportRepo::trial_balance(&vec![totals("asset", 5, 0), totals("revenue", 0, 5)]).unwrap();
    assert_eq!((tb.total_debits, tb.total_credits), (5, 5));
    assert!(ReportRepo::trial_balance(&vec![totals("bogus", 1, 1)]).is_none());
}

#[test]
fn search_kinds_and_display() {
    let k = ReportRepo::search_kinds(&vec!["accounts".to_string(), "contacts".to_string()]);
    assert_eq!(k, vec![SearchKind::Contact, SearchKind::Account]);
    assert_eq!(ReportRepo::search_pattern("acme"), "%acme%");
    let h = ReportRepo::search_hit(SearchKind::Account, 9, "Cash", "1000");
    assert_eq!((h.display.as_str(), h.hit_type), ("1000 – Cash", "account"));
    let h = ReportRepo::search_hit(SearchKind::Invoice, 9, "INV-00001", "");
    assert_eq!((h.display.as_str(), h.hit_type), ("INV-00001", "invoice"));
}

#[test]
fn project_profitability_margins() {
    let r = ReportRepo::project_profitability(&vec![
        ProjectFigures { project_id: 1, invoiced_amount: 1000, expense_amount: 300, time_cost: 200 },
        ProjectFigures { project_id: 2, invoiced_amount: 0, expense_amount: 50, time_cost: 0 },
    ]);
    assert_eq!((r.rows[0].gross_profit, r.rows[0].margin_bps), (500, 5000));
    assert_eq!((r.rows[1].gross_profit, r.rows[1].margin_bps), (-50, 0));
    assert_eq!(r.total_profit, 450);
}

#[test]
fn vendor_spend_and_grni() {
    let v = ReportRepo::vendor_spend(&vec![
        VendorFigures { bill_count: 2, subtotal: 500, amount_paid: 200 },
        VendorFigures { bill_count: 1, subtotal: 100, amount_paid: 150 },
    ]);
    assert_eq!(v.outstanding, vec![300, 0]);
    assert_eq!((v.total_bills, v.total_subtotal, v.total_paid, v.total_outstanding), (3, 600, 350, 300));
    let (rows, total) = ReportRepo::grni_accrual(&vec![(3, 40), (2, 5)]);
    assert_eq!(rows, vec![120, 10]);
    assert_eq!(total, 130);
}

#[test]
fn cash_flow_takes_large_movements_that_cancel() {
    let big = i64::MAX - 10;
    let rows = vec![net("revenue", -big), net("expense", big), net("asset", -5)];
    let r = ReportRepo::cash_flow(&rows, 0);
    assert_eq!(r.operating.items[0].amount, big);
    assert_eq!(r.operating.items[1].amount, -big);
    assert_eq!(r.operating.total, 0);
    assert_eq!(r.net_change, 5);
    assert_eq!(r.closing_cash, 5);
}

#[test]
fn aging_takes_large_balances_that_offset() {
    let as_of = d(2024, 3, 31);
    let big = i64::MAX - 5;
    let items = vec![
        OpenItem { contact_id: 1, contact_name: "Acme".into(), due_date: d(2024, 3, 31), balance: big },
        OpenItem { contact_id: 2, contact_name: "Bolt".into(), due_date: d(2024, 3, 31), balance: -big },
    ];
    let r = ReportRepo::aging(as_of, &items);
    assert_eq!(r.rows.len(), 1);
    assert_eq!((r.totals.current, r.totals.total), (big, big));
}

#[test]
fn job_costing_takes_large_costs_that_offset() {
    let big = i64::MAX - 7;
    let projects = vec![ProjectBudget { project_id: 1, project_name: "Alpha".into(), budget: 10 }];
    let time = vec![cost(1, None, None, big), cost(1, Some(2), Some("B"), -big)];
    let r = ReportRepo::job_costing(d(2024, 1, 1), d(2024, 1, 31), &projects, &time, &vec![]);
    assert_eq!(r.rows.len(), 1);
    assert_eq!(r.rows[0].time_cost, 0);
    assert_eq!(r.rows[0].variance, 10);
    assert_eq!(r.rows[0].cost_codes.len(), 2);
    assert_eq!((r.total_budget, r.total_actual, r.total_variance), (10, 0, 10));
}

#[test]
fn profit_loss_takes_large_amounts_that_cancel() {
    let big = i64::MAX - 3;
    let pl = ReportRepo::profit_loss(&vec![
        totals("revenue", 0, big),
        totals("revenue", big, 0),
        totals("expense", 40, 0),
    ]);
    assert_eq!(pl.revenue.total, 0);
    assert_eq!(pl.expenses.total, 40);
    assert_eq!(pl.net_income, -40);
}
