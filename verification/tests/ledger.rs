use oxidebooks_db::dates::CalDate;
use oxidebooks_db::error::{Conflict, DbError, Template};
use oxidebooks_db::ledger::{validate_lines, EnteredLine};
use oxidebooks_db::payroll::PayrollRepo;
use oxidebooks_db::quotes::QuoteRepo;

fn line(debit: i64, credit: i64) -> EnteredLine {
    EnteredLine { debit, credit }
}

#[test]
fn journal_lines_need_two_lines_and_balance() {
    assert_eq!(
        validate_lines(&[line(100, 0)]),
        Err(DbError::Conflict(Conflict::TooFewLines))
    );
    assert_eq!(validate_lines(&[line(100, 0), line(0, 100)]), Ok(()));
    assert_eq!(
        validate_lines(&[line(100, 0), line(0, 60), line(0, 30)]),
        Err(DbError::Conflict(Conflict::Unbalanced { debit: 100, credit: 90 }))
    );
}

#[test]
fn payroll_entries_only_on_draft_runs() {
    assert!(PayrollRepo::check_add_entry("draft").is_ok());
    assert_eq!(
        PayrollRepo::check_add_entry("approved"),
        Err(DbError::Conflict(Conflict::InvalidStatus(
            "can only add entries to a draft payroll run".to_string()
        )))
    );
}

fn d(y: i32, m: u8, day: u8) -> CalDate {
    CalDate { year: y, month: m, day }
}

#[test]
fn quote_conversion_dates() {
    let today = d(2024, 5, 10);
    let dates = QuoteRepo::plan_convert("accepted", true, None, None, today).ok().unwrap();
    assert_eq!((dates.invoice_date, dates.due_date), (today, today));
    let dates =
        QuoteRepo::plan_convert("accepted", true, Some(d(2024, 5, 1)), Some(d(2024, 6, 1)), today)
            .ok()
            .unwrap();
    assert_eq!((dates.invoice_date, dates.due_date), (d(2024, 5, 1), d(2024, 6, 1)));
    let dates = QuoteRepo::plan_convert("accepted", true, Some(d(2024, 5, 1)), None, today).ok().unwrap();
    assert_eq!(dates.due_date, d(2024, 5, 1));
    assert!(matches!(
        QuoteRepo::plan_convert("accepted", false, None, None, today),
        Err(DbError::Conflict(Conflict::MissingContact))
    ));
    assert!(matches!(
        QuoteRepo::plan_convert("sent", true, None, None, today),
        Err(DbError::Conflict(Conflict::InvalidStatus(m)))
            if m == "quote must be accepted before conversion, current status: 'sent'"
    ));
}

#[test]
fn errors_read_as_reported() {
    assert_eq!(DbError::NotFound.message(), "not found");
    assert_eq!(DbError::Internal("boom".into()).message(), "boom");
    assert_eq!(
        DbError::Conflict(Conflict::Unbalanced { debit: 100, credit: -7 }).message(),
        "debits (100) must equal credits (-7)"
    );
    assert_eq!(
        DbError::Conflict(Conflict::ClaimExceedsContract { claimed_pct: 90, requested_pct: 20 }).message(),
        "cumulative claim percentage would exceed 100% (already claimed 90%, requested 20%)"
    );
    assert_eq!(DbError::Conflict(Conflict::InvalidUuid("x".into())).message(), "invalid UUID: x");
    assert_eq!(
        DbError::Conflict(Conflict::InvalidPeriod("2024".into())).message(),
        "invalid period '2024'; expected YYYY-MM"
    );
    assert_eq!(
        DbError::Conflict(Conflict::Inactive(Template::Bill)).message(),
        "recurring bill is inactive"
    );
    assert_eq!(
        DbError::Conflict(Conflict::ApplyExceedsRemaining { amount: 5, remaining: 3 }).message(),
        "apply amount 5 exceeds remaining balance 3"
    );
    assert_eq!(DbError::Conflict(Conflict::InvalidStatus("nope".into())).message(), "nope");
}
