use oxidebooks_db::dates::CalDate;
use oxidebooks_db::error::{Conflict, DbError, Template};
use oxidebooks_db::recurring::{
    PaymentTermsRepo, RecurringBillRepo, RecurringInvoiceRepo, RecurringJournalEntryRepo, ReportScheduleRepo,
};
use oxidebooks_db::schedules::{
    GrnLineCost, LandedCostRepo, PeriodEntry, PrepaidExpenseRepo, RevRecEntryDue, RevRecRepo, RevRecSchedule,
    RevRecStatus,
};

fn d(y: i32, m: u8, day: u8) -> CalDate {
    CalDate { year: y, month: m, day }
}

#[test]
fn journal_template_advances_by_frequency() {
    assert_eq!(RecurringJournalEntryRepo::advance_date(d(2024, 1, 31), "monthly"), d(2024, 2, 29));
    assert_eq!(RecurringJournalEntryRepo::advance_date(d(2024, 12, 28), "weekly"), d(2025, 1, 4));
    assert_eq!(RecurringJournalEntryRepo::advance_date(d(2024, 2, 29), "yearly"), d(2025, 2, 28));
    assert_eq!(RecurringJournalEntryRepo::advance_date(d(2024, 1, 1), "unknown"), d(2024, 1, 31));
}

#[test]
fn journal_template_frequency_is_validated() {
    assert!(RecurringJournalEntryRepo::validate_frequency("quarterly").is_ok());
    assert_eq!(
        RecurringJournalEntryRepo::validate_frequency("hourly"),
        Err(DbError::Conflict(Conflict::InvalidFrequency("hourly".to_string())))
    );
}

#[test]
fn inactive_template_cannot_post() {
    let r = RecurringJournalEntryRepo::plan_post_next(false, d(2024, 1, 1), "daily", None);
    assert!(matches!(r, Err(DbError::Conflict(Conflict::Inactive(Template::JournalEntry)))));
    let p = RecurringJournalEntryRepo::plan_post_next(true, d(2024, 1, 31), "daily", Some(d(2024, 2, 1)))
        .ok()
        .unwrap();
    assert_eq!(p.new_next_date, d(2024, 2, 1));
    assert!(p.still_active);
}

#[test]
fn recurring_bill_next_date_uses_interval() {
    assert_eq!(RecurringBillRepo::next_date(d(2024, 1, 31), "monthly", 1), d(2024, 2, 29));
    assert_eq!(RecurringBillRepo::next_date(d(2024, 1, 15), "weekly", 2), d(2024, 1, 29));
}

#[test]
fn yearly_recurring_documents_advance_from_a_leap_day() {
    assert_eq!(RecurringBillRepo::next_date(d(2024, 2, 29), "yearly", 1), d(2025, 2, 28));
    assert_eq!(RecurringInvoiceRepo::next_date(d(2024, 2, 29), "yearly", 4), d(2028, 2, 29));
    assert_eq!(RecurringBillRepo::next_date(d(2023, 6, 30), "yearly", 2), d(2025, 6, 30));
    let p = RecurringBillRepo::plan_generate(true, d(2024, 2, 29), 30, "yearly", 1, None).unwrap();
    assert_eq!(p.document_date, d(2024, 2, 29));
    assert_eq!(p.new_next_date, d(2025, 2, 28));
}

#[test]
fn payment_terms_due_date() {
    assert_eq!(PaymentTermsRepo::compute_due_date(d(2024, 12, 15), 30), d(2025, 1, 14));
    assert_eq!(PaymentTermsRepo::compute_due_date(d(2024, 3, 1), 0), d(2024, 3, 1));
}

#[test]
fn report_schedule_next_run() {
    assert_eq!(ReportScheduleRepo::next_run_date("monthly", d(2024, 1, 31)), d(2024, 2, 29));
    assert_eq!(ReportScheduleRepo::next_run_date("daily", d(2024, 12, 31)), d(2025, 1, 1));
    assert!(ReportScheduleRepo::validate_frequency("hourly").is_err());
}

#[test]
fn straight_line_revenue_sums_to_total() {
    let v = RevRecRepo::generate_straight_line_periods(d(2024, 1, 15), d(2024, 3, 10), 1000);
    assert_eq!(v, vec![(d(2024, 1, 1), 334), (d(2024, 2, 1), 333), (d(2024, 3, 1), 333)]);
    let total: i64 = v.iter().map(|x| x.1).sum();
    assert_eq!(total, 1000);
}

#[test]
fn rev_rec_method_is_validated() {
    assert!(RevRecRepo::validate_method("milestone").is_ok());
    assert_eq!(
        RevRecRepo::validate_method("bogus"),
        Err(DbError::Conflict(Conflict::InvalidRevRecMethod("bogus".to_string())))
    );
    let e = RevRecRepo::plan_entries("manual", d(2024, 1, 1), d(2024, 6, 1), 600).ok().unwrap();
    assert!(e.is_empty());
}

#[test]
fn rev_rec_period_parses_year_month() {
    assert_eq!(RevRecRepo::parse_period(" 2024-07 ").ok(), Some(d(2024, 7, 1)));
    assert!(matches!(
        RevRecRepo::parse_period("July"),
        Err(DbError::Conflict(Conflict::InvalidPeriod(_)))
    ));
}

#[test]
fn rev_rec_recognition_completes_schedules() {
    let schedules = vec![
        RevRecSchedule { id: 1, total_amount: 300, recognized_amount: 200, status: RevRecStatus::Active },
        RevRecSchedule { id: 2, total_amount: 900, recognized_amount: 0, status: RevRecStatus::Active },
    ];
    let entries = vec![
        RevRecEntryDue { entry_id: 10, schedule_id: 1, amount: 100 },
        RevRecEntryDue { entry_id: 11, schedule_id: 2, amount: 300 },
    ];
    let o = RevRecRepo::recognize(&schedules, &entries).ok().unwrap();
    assert_eq!(o.entries_recognized, 2);
    assert_eq!(o.total_amount, 400);
    assert_eq!(o.schedules[0].status, RevRecStatus::Completed);
    assert_eq!(o.schedules[0].recognized_amount, 300);
    assert_eq!(o.schedules[1].status, RevRecStatus::Active);
    assert!(matches!(
        RevRecRepo::recognize(&schedules, &vec![]),
        Err(DbError::Conflict(Conflict::NothingToRecognize))
    ));
}

#[test]
fn prepaid_schedule_amortizes_total() {
    let periods = PrepaidExpenseRepo::monthly_periods(d(2024, 1, 31), d(2024, 4, 30));
    assert_eq!(periods, vec![d(2024, 1, 31), d(2024, 2, 29), d(2024, 3, 29), d(2024, 4, 29)]);
}

#[test]
fn prepaid_recognition_debits_expense() {
    let lines = PrepaidExpenseRepo::plan_recognition(false, "exp", "asset", 250).ok().unwrap();
    assert_eq!(lines[0].account_id, "exp");
    assert_eq!(lines[0].debit, 250);
    assert_eq!(lines[1].account_id, "asset");
    assert_eq!(lines[1].credit, 250);
    assert!(matches!(
        PrepaidExpenseRepo::plan_recognition(true, "exp", "asset", 250),
        Err(DbError::Conflict(Conflict::AlreadyRecognized))
    ));
}

#[test]
fn landed_cost_allocation_adds_up() {
    let lines = vec![
        GrnLineCost { quantity_received: 1, unit_cost: 100, inventoried: true },
        GrnLineCost { quantity_received: 2, unit_cost: 100, inventoried: false },
    ];
    let a = LandedCostRepo::allocate(100, "value", &lines).ok().unwrap();
    assert_eq!(a[0].allocated_amount, 33);
    assert_eq!(a[1].allocated_amount, 67);
    assert_eq!(a[0].extra_per_unit, Some(33));
    assert_eq!(a[1].extra_per_unit, None);
    let zero = vec![GrnLineCost { quantity_received: 0, unit_cost: 5, inventoried: true }];
    assert!(matches!(
        LandedCostRepo::allocate(100, "quantity", &zero),
        Err(DbError::Conflict(Conflict::ZeroTotalWeight))
    ));
    assert!(matches!(
        LandedCostRepo::check_receipt("draft", 3),
        Err(DbError::Conflict(Conflict::ReceiptNotPosted))
    ));
}

#[test]
fn recognition_adds_each_schedules_due_amounts() {
    let schedules = vec![
        RevRecSchedule { id: 1, total_amount: 1000, recognized_amount: 100, status: RevRecStatus::Active },
        RevRecSchedule { id: 2, total_amount: 500, recognized_amount: 0, status: RevRecStatus::Active },
        RevRecSchedule { id: 3, total_amount: 50, recognized_amount: 50, status: RevRecStatus::Completed },
    ];
    let entries = vec![
        RevRecEntryDue { entry_id: 10, schedule_id: 1, amount: 250 },
        RevRecEntryDue { entry_id: 11, schedule_id: 2, amount: 500 },
        RevRecEntryDue { entry_id: 12, schedule_id: 1, amount: 250 },
    ];
    let o = RevRecRepo::recognize(&schedules, &entries).ok().unwrap();
    assert_eq!(o.schedules[0].recognized_amount, 100 + 250 + 250);
    assert_eq!(o.schedules[0].status, RevRecStatus::Active);
    assert_eq!(o.schedules[1].recognized_amount, 500);
    assert_eq!(o.schedules[1].status, RevRecStatus::Completed);
    assert_eq!(o.schedules[2].recognized_amount, 50);
    assert_eq!(o.schedules[2].status, RevRecStatus::Completed);
    assert_eq!(o.total_amount, 1000);
}

#[test]
fn a_period_is_recognized_only_once() {
    let schedules = vec![
        RevRecSchedule { id: 1, total_amount: 300, recognized_amount: 100, status: RevRecStatus::Active },
    ];
    let entries = vec![
        PeriodEntry { entry_id: 10, schedule_id: 1, amount: 100, posted: false },
        PeriodEntry { entry_id: 11, schedule_id: 1, amount: 50, posted: true },
        PeriodEntry { entry_id: 12, schedule_id: 1, amount: 100, posted: false },
    ];
    let due = RevRecRepo::due_entries(&entries);
    assert_eq!(due.iter().map(|e| e.entry_id).collect::<Vec<_>>(), vec![10, 12]);
    let first = RevRecRepo::recognize_period(&schedules, &entries).ok().unwrap();
    assert_eq!(first.outcome.entries_recognized, 2);
    assert_eq!(first.outcome.total_amount, 200);
    assert_eq!(first.outcome.schedules[0].recognized_amount, 300);
    assert_eq!(first.outcome.schedules[0].status, RevRecStatus::Completed);
    assert!(first.entries.iter().all(|e| e.posted));
    assert!(matches!(
        RevRecRepo::recognize_period(&first.outcome.schedules, &first.entries),
        Err(DbError::Conflict(Conflict::NothingToRecognize))
    ));
}

#[test]
fn periods_may_be_surrounded_by_any_white_space() {
    assert_eq!(RevRecRepo::parse_period("\u{3000}2024-03\t\n").ok(), Some(d(2024, 3, 1)));
    assert!(RevRecRepo::parse_period("2024-03x").is_err());
}
