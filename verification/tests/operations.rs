use oxidebooks_db::dates::CalDate;
use oxidebooks_db::error::{Conflict, DbError};
use oxidebooks_db::identity::{
    IdentityProviderRepo, PaymentLinkRepo, ProviderType, ScimTokenRepo, StoredOidcState, StoredToken,
};
use oxidebooks_db::intercompany::{IntercompanyAccounts, IntercompanyRepo};
use oxidebooks_db::inventory::{
    InventoryLotRepo, InventoryReorderRequestRepo, InventoryRepo, InventoryStocktakeRepo,
    ReorderLevel, StockLevel, StockMove, StocktakeVariance,
};
use oxidebooks_db::leases::{LeaseRepo, LeaseScheduleLine};
use oxidebooks_db::payroll::{PayEntry, PayrollAccounts, PayrollRepo, RunTotals};
use oxidebooks_db::receivables::{
    InstallmentStatus, PaymentPlanRepo, PortalPaymentMethodRepo, PrepaymentRepo, PrepaymentState,
    RetainerRepo, SavedMethod,
};
use oxidebooks_db::subscriptions::{BillingRunResult, Renewal, SubscriptionRepo, SubscriptionStatus};
use oxidebooks_db::workforce::{LeaveRepo, PayrollTaxRepo, PayslipRepo, TaxFilingRepo};

fn d(y: i32, m: u8, day: u8) -> CalDate {
    CalDate { year: y, month: m, day }
}

#[test]
fn stock_moves_accumulate_per_product() {
    let levels = vec![StockLevel { product_id: 1, quantity_on_hand: 10 }, StockLevel { product_id: 2, quantity_on_hand: 0 }];
    let moves = vec![
        StockMove { product_id: 1, quantity: -3 },
        StockMove { product_id: 2, quantity: 5 },
        StockMove { product_id: 1, quantity: 1 },
        StockMove { product_id: 9, quantity: 100 },
    ];
    let after = InventoryRepo::apply_moves(&levels, &moves);
    assert_eq!(after[0].quantity_on_hand, 8);
    assert_eq!(after[1].quantity_on_hand, 5);
    assert_eq!(InventoryRepo::adjustment_unit_cost(None), 0);
    assert_eq!(InventoryLotRepo::check_quantity(-1), Err(DbError::Conflict(Conflict::NegativeQuantity)));
}

#[test]
fn stocktake_posts_nonzero_variances() {
    let lines = vec![
        StocktakeVariance { product_id: 1, variance: -2 },
        StocktakeVariance { product_id: 2, variance: 0 },
        StocktakeVariance { product_id: 3, variance: 4 },
    ];
    let m = InventoryStocktakeRepo::plan_post(Some("submitted"), &lines).ok().unwrap();
    assert_eq!(m, vec![StockMove { product_id: 1, quantity: -2 }, StockMove { product_id: 3, quantity: 4 }]);
    assert!(InventoryStocktakeRepo::plan_post(Some("draft"), &lines).is_err());
    assert!(InventoryStocktakeRepo::plan_post(None, &lines).is_err());
    assert!(InventoryStocktakeRepo::check_draft(Some("draft")).is_ok());
    assert_eq!(
        InventoryStocktakeRepo::check_draft(Some("posted")),
        Err(DbError::Conflict(Conflict::InvalidStatus(
            "stocktake not found or not in draft state".to_string()
        )))
    );
    assert_eq!(
        InventoryStocktakeRepo::check_line_update(None),
        Err(DbError::Conflict(Conflict::InvalidStatus(
            "line not found or stocktake is not in draft state".to_string()
        )))
    );
    assert!(InventoryStocktakeRepo::check_line_update(Some("draft")).is_ok());
}

#[test]
fn reorder_requests() {
    assert_eq!(InventoryReorderRequestRepo::requested_quantity(Some(5), None), Ok(5));
    assert_eq!(InventoryReorderRequestRepo::requested_quantity(None, Some(12)), Ok(12));
    assert_eq!(
        InventoryReorderRequestRepo::requested_quantity(Some(0), Some(12)),
        Err(DbError::Conflict(Conflict::NonPositiveQuantity))
    );
    assert_eq!(
        InventoryReorderRequestRepo::requested_quantity(None, None),
        Err(DbError::Conflict(Conflict::NoReorderQuantity))
    );
    let s = InventoryReorderRequestRepo::plan_submit(
        "pending",
        Some("67e55044-10b1-426f-9247-bb680e5fe0c8"),
        Some("2024-05-06"),
    )
    .ok()
    .unwrap();
    assert_eq!(s.supplier_id, 0x67e5504410b1426f9247bb680e5fe0c8);
    assert_eq!(s.expected_date, Some(d(2024, 5, 6)));
    assert!(matches!(
        InventoryReorderRequestRepo::plan_submit("pending", None, None),
        Err(DbError::Conflict(Conflict::SupplierRequired))
    ));
    assert!(matches!(
        InventoryReorderRequestRepo::plan_submit("ordered", None, None),
        Err(DbError::Conflict(Conflict::InvalidStatus(m))) if m == "only pending requests can be submitted"
    ));
    assert!(matches!(
        InventoryReorderRequestRepo::plan_submit("pending", Some("not-a-uuid"), None),
        Err(DbError::Conflict(Conflict::InvalidUuid(_)))
    ));
    assert!(InventoryReorderRequestRepo::check_cancel("cancelled").is_err());
}

#[test]
fn payment_plans() {
    assert_eq!(PaymentPlanRepo::plan_total(&vec![100, 250]), Ok(350));
    assert_eq!(PaymentPlanRepo::plan_total(&vec![]), Err(DbError::Conflict(Conflict::NoInstallments)));
    let p = PaymentPlanRepo::pay_installment(Some((100, 40)), 140, 350, 60).ok().unwrap();
    assert_eq!(p.installment_paid, 100);
    assert_eq!(p.installment_status, InstallmentStatus::Paid);
    assert_eq!(p.plan_paid, 200);
    assert!(!p.plan_completed);
    assert_eq!(
        PaymentPlanRepo::pay_installment(Some((100, 40)), 140, 350, 61),
        Err(DbError::Conflict(Conflict::ExceedsRemaining { remaining: 60 }))
    );
    assert_eq!(PaymentPlanRepo::pay_installment(None, 0, 10, 5), Err(DbError::NotFound));
    assert_eq!(
        PaymentPlanRepo::pay_installment(Some((100, 0)), 0, 10, 0),
        Err(DbError::Conflict(Conflict::NonPositiveAmount))
    );
}

#[test]
fn prepayments_and_retainers() {
    assert_eq!(PrepaymentRepo::apply("open", 1000, 600, 400, 400), Ok((1000, PrepaymentState::FullyApplied)));
    assert_eq!(PrepaymentRepo::apply("open", 1000, 0, 1000, 10), Ok((10, PrepaymentState::PartiallyApplied)));
    assert_eq!(
        PrepaymentRepo::apply("open", 1000, 600, 400, 401),
        Err(DbError::Conflict(Conflict::ApplyExceedsRemaining { amount: 401, remaining: 400 }))
    );
    assert_eq!(
        PrepaymentRepo::apply("voided", 1000, 0, 1000, 1),
        Err(DbError::Conflict(Conflict::InvalidStatus("prepayment is voided".to_string())))
    );
    assert!(PrepaymentRepo::check_void(Some("available")).is_ok());
    assert_eq!(
        PrepaymentRepo::check_void(Some("applied")),
        Err(DbError::Conflict(Conflict::InvalidStatus(
            "prepayment cannot be voided from status 'applied'".to_string()
        )))
    );
    assert_eq!(PrepaymentRepo::check_void(None), Err(DbError::NotFound));
    assert_eq!(RetainerRepo::apply(Some(500), 200), Ok(300));
    assert_eq!(RetainerRepo::apply(Some(100), 200), Err(DbError::Conflict(Conflict::InsufficientBalance)));
    assert_eq!(RetainerRepo::apply(None, 1), Err(DbError::NotFound));
}

#[test]
fn saved_payment_methods_keep_one_default() {
    let first = PortalPaymentMethodRepo::add(&vec![], 1, "card", false).ok().unwrap();
    assert_eq!(first, vec![SavedMethod { id: 1, is_default: true }]);
    let second = PortalPaymentMethodRepo::add(&first, 2, "paypal", true).ok().unwrap();
    assert_eq!(second, vec![SavedMethod { id: 1, is_default: false }, SavedMethod { id: 2, is_default: true }]);
    let back = PortalPaymentMethodRepo::set_default(&second, 1).ok().unwrap();
    assert_eq!(back, vec![SavedMethod { id: 1, is_default: true }, SavedMethod { id: 2, is_default: false }]);
    assert_eq!(PortalPaymentMethodRepo::set_default(&second, 3), Err(DbError::NotFound));
    assert_eq!(
        PortalPaymentMethodRepo::add(&first, 2, "cash", true),
        Err(DbError::Conflict(Conflict::InvalidPaymentType))
    );
}

#[test]
fn scim_tokens_are_hashed_and_found() {
    let raw = ScimTokenRepo::generate_raw_token();
    assert!(raw.starts_with("scim_"));
    assert_eq!(raw.len(), 5 + 43);
    let hash = ScimTokenRepo::hash_token(&raw).ok().unwrap();
    assert_ne!(hash, raw);
    let tokens = vec![
        StoredToken { id: 10, org_id: 1, token_hash: "not a phc string".into(), is_active: true },
        StoredToken { id: 20, org_id: 2, token_hash: hash.clone(), is_active: true },
    ];
    assert_eq!(ScimTokenRepo::find_owner(&raw, &tokens), Ok(2));
    assert_eq!(ScimTokenRepo::find_owner("scim_wrong", &tokens), Err(DbError::NotFound));
    let link = PaymentLinkRepo::generate_token();
    assert_eq!(link.len(), 32);
}

#[test]
fn a_scim_token_verifies_until_it_is_revoked() {
    let raw = ScimTokenRepo::generate_raw_token();
    let hash = ScimTokenRepo::hash_token(&raw).ok().unwrap();
    let tokens = vec![
        StoredToken { id: 10, org_id: 1, token_hash: "not a phc string".into(), is_active: true },
        StoredToken { id: 20, org_id: 2, token_hash: hash, is_active: true },
    ];
    let other = ScimTokenRepo::revoke(&tokens, 1, 10).ok().unwrap();
    assert!(!other[0].is_active && other[1].is_active);
    assert_eq!(ScimTokenRepo::find_owner(&raw, &other), Ok(2));
    // the id alone is not enough: the token must belong to the organization
    assert_eq!(ScimTokenRepo::revoke(&tokens, 1, 20).err(), Some(DbError::NotFound));
    let gone = ScimTokenRepo::revoke(&tokens, 2, 20).ok().unwrap();
    assert!(!gone[1].is_active && gone[0].is_active);
    assert_eq!(ScimTokenRepo::find_owner(&raw, &gone), Err(DbError::NotFound));
}

#[test]
fn oidc_state_expires_after_fifteen_minutes() {
    let minute: i128 = 60_000_000_000;
    assert!(IdentityProviderRepo::check_oidc_state_age(15 * minute + 59_000_000_000, 0).is_ok());
    assert_eq!(
        IdentityProviderRepo::check_oidc_state_age(16 * minute, 0),
        Err(DbError::Conflict(Conflict::OidcStateExpired))
    );
}

#[test]
fn intercompany_entries_mirror() {
    let a = IntercompanyAccounts {
        debit_account_id_a: "due-from".into(),
        credit_account_id_a: "revenue".into(),
        debit_account_id_b: "expense".into(),
        credit_account_id_b: "due-to".into(),
    };
    let e = IntercompanyRepo::plan_transaction(900, &a).ok().unwrap();
    assert_eq!((e.entry_a[0].debit, e.entry_a[1].credit, e.entry_b[0].debit, e.entry_b[1].credit), (900, 900, 900, 900));
    assert_eq!(e.entry_b[1].account_id, "due-to");
    assert!(matches!(IntercompanyRepo::plan_transaction(0, &a), Err(DbError::Conflict(Conflict::NonPositiveAmount))));
}

#[test]
fn payroll_journal_books_the_run() {
    let t = PayrollRepo::totals(&vec![
        PayEntry { gross_pay: 1000, tax_withheld: 200, net_pay: 700 },
        PayEntry { gross_pay: 500, tax_withheld: 100, net_pay: 400 },
    ]);
    assert_eq!((t.total_gross, t.total_tax, t.total_net), (1500, 300, 1100));
    let a = PayrollAccounts {
        wages_account_id: "wages".into(),
        tax_account_id: "tax".into(),
        cash_account_id: "cash".into(),
        deductions_account_id: None,
    };
    let lines = PayrollRepo::plan_journal(false, "approved", t, &a).ok().unwrap().unwrap();
    assert_eq!(lines.len(), 4);
    assert_eq!((lines[3].account_id.as_str(), lines[3].credit), ("tax", 100));
    let debits: i64 = lines.iter().map(|l| l.debit).sum();
    let credits: i64 = lines.iter().map(|l| l.credit).sum();
    assert_eq!(debits, credits);
    assert!(PayrollRepo::plan_journal(true, "draft", RunTotals { total_gross: 0, total_tax: 0, total_net: 0 }, &a).ok().unwrap().is_none());
    assert!(matches!(
        PayrollRepo::plan_journal(false, "draft", RunTotals { total_gross: 1, total_tax: 0, total_net: 1 }, &a),
        Err(DbError::Conflict(Conflict::InvalidStatus(m)))
            if m == "payroll run must be approved or paid before posting journal"
    ));
    assert!(matches!(
        PayrollRepo::plan_journal(false, "paid", RunTotals { total_gross: 0, total_tax: 0, total_net: 0 }, &a),
        Err(DbError::Conflict(Conflict::NoPayrollEntries))
    ));
    assert_eq!(PayrollRepo::journal_reference("0123456789abcdef"), "PAYROLL-01234567");
}

#[test]
fn people_and_payroll_taxes() {
    assert!(LeaveRepo::check_dates(d(2024, 5, 1), d(2024, 5, 1)).is_ok());
    assert_eq!(LeaveRepo::check_dates(d(2024, 5, 2), d(2024, 5, 1)), Err(DbError::Conflict(Conflict::EndBeforeStart)));
    assert!(LeaveRepo::check_new_status("cancelled").is_ok());
    assert!(LeaveRepo::check_new_status("pending").is_err());
    assert_eq!(PayslipRepo::net_pay(1000, 200, 100), Ok(700));
    assert_eq!(PayslipRepo::net_pay(100, 80, 30), Err(DbError::Conflict(Conflict::NegativeNetPay)));
    assert_eq!(PayslipRepo::net_pay(-1, 0, 0), Err(DbError::Conflict(Conflict::NegativeGrossPay)));
    assert!(PayrollTaxRepo::check_amounts(0, -1).is_err());
    assert!(PayrollTaxRepo::check_pay("accrued").is_ok());
    let f = TaxFilingRepo::form_941(2, 100_000, 15_000).ok().unwrap();
    assert_eq!((f.month_start, f.month_end), (4, 6));
    assert_eq!((f.social_security_tax, f.medicare_tax, f.total_taxes), (12_400, 2_900, 30_300));
    assert!(matches!(TaxFilingRepo::form_941(5, 0, 0), Err(DbError::Conflict(Conflict::InvalidQuarter))));
    assert_eq!(TaxFilingRepo::net_hst(1300, 400), 900);
}

#[test]
fn subscriptions_bill_and_renew() {
    let s = SubscriptionRepo::plan_new_subscription(d(2024, 1, 31), "monthly", 0);
    assert_eq!(s.status, SubscriptionStatus::Active);
    assert_eq!(s.period_start, d(2024, 1, 31));
    let t = SubscriptionRepo::plan_new_subscription(d(2024, 1, 1), "monthly", 14);
    assert_eq!(t.status, SubscriptionStatus::Trialing);
    assert_eq!(t.trial_end, Some(d(2024, 1, 15)));
    assert_eq!(SubscriptionRepo::plan_renewal(d(2024, 2, 1), "monthly", true), Renewal::Cancel);
    assert_eq!(SubscriptionRepo::billing_amount(1500, 3), 4500);
    assert!(matches!(
        SubscriptionRepo::plan_bill(SubscriptionStatus::Cancelled, 1, 10),
        Err(DbError::Conflict(Conflict::SubscriptionNotBillable))
    ));
    let l = SubscriptionRepo::plan_bill(SubscriptionStatus::Trialing, 2, 10).ok().unwrap();
    assert_eq!((l.quantity, l.unit_price), (200, 10));
    assert!(SubscriptionRepo::validate_billing_cycle("fortnightly").is_err());
}

#[test]
fn billing_run_summary() {
    let r: BillingRunResult = BillingRunResult::from_outcomes(vec![
        ("s1".to_string(), Some("inv1".to_string())),
        ("s2".to_string(), None),
        ("s3".to_string(), Some("inv3".to_string())),
    ]);
    assert_eq!(r.invoice_ids, vec!["inv1".to_string(), "inv3".to_string()]);
    assert_eq!(r.failed_subscription_ids, vec!["s2".to_string()]);
    assert_eq!((r.invoiced_count, r.failed_count), (2, 1));
}

#[test]
fn leases_validate_and_schedule() {
    let t = LeaseRepo::validate_create(
        "67e55044-10b1-426f-9247-bb680e5fe0c8",
        "finance",
        "quarterly",
        "2024-01-15",
        "2025-01-15",
        None,
        None,
        None,
    )
    .ok()
    .unwrap();
    assert_eq!((t.periods_per_year, t.months_per_period, t.num_periods), (4, 3, 4));
    assert_eq!(t.organization_id, 0x67e55044_10b1_426f_9247_bb680e5fe0c8);
    assert_eq!((t.commencement, t.end), (d(2024, 1, 15), d(2025, 1, 15)));
    assert!(matches!(
        LeaseRepo::validate_create(
            "67e55044-10b1-426f-9247-bb680e5fe0c8",
            "finance",
            "monthly",
            "2024-02-30",
            "2025-01-15",
            None,
            None,
            None
        ),
        Err(DbError::Conflict(Conflict::InvalidDate(s))) if s == "2024-02-30"
    ));
    assert!(matches!(
        LeaseRepo::validate_create("x", "rental", "monthly", "", "", None, None, None),
        Err(DbError::Conflict(Conflict::InvalidLeaseType(_)))
    ));
    assert!(matches!(
        LeaseRepo::validate_create(
            "67e55044-10b1-426f-9247-bb680e5fe0c8",
            "operating",
            "monthly",
            "2024-01-15",
            "2024-01-15",
            None,
            None,
            None
        ),
        Err(DbError::Conflict(Conflict::EndNotAfterCommencement))
    ));
    let dates = LeaseRepo::schedule_dates(d(2024, 1, 31), 1, 3);
    assert_eq!(dates, vec![d(2024, 1, 31), d(2024, 2, 29), d(2024, 3, 29)]);
    assert_eq!(LeaseRepo::months_between(d(2024, 11, 30), d(2025, 2, 1)), 3);
    let line = LeaseScheduleLine {
        period: 1,
        period_date: d(2024, 1, 31),
        payment: 100,
        interest: 5,
        principal: 95,
        rou_amortization: 90,
        lease_expense: 95,
        liability_balance: 905,
        rou_balance: 910,
        is_posted: true,
    };
    assert_eq!(
        LeaseRepo::select_payment_line(&vec![line], d(2024, 1, 31)),
        Err(DbError::Conflict(Conflict::PaymentAlreadyRecorded))
    );
}

#[test]
fn subscriptions_cancel_while_live() {
    assert!(SubscriptionRepo::check_cancel(Some(SubscriptionStatus::Trialing)).is_ok());
    assert!(SubscriptionRepo::check_cancel(Some(SubscriptionStatus::PastDue)).is_ok());
    let refused = Err(DbError::Conflict(Conflict::InvalidStatus(
        "subscription cannot be cancelled in its current state".to_string(),
    )));
    assert_eq!(SubscriptionRepo::check_cancel(Some(SubscriptionStatus::Cancelled)), refused);
    assert_eq!(SubscriptionRepo::check_cancel(None), refused);
}

#[test]
fn an_oidc_state_can_be_used_only_once() {
    let minute: i128 = 60_000_000_000;
    let now = 100 * minute;
    let states = vec![
        StoredOidcState { state: "a".into(), created_nanos: now - minute },
        StoredOidcState { state: "b".into(), created_nanos: now - 20 * minute },
    ];
    let (first, left) = IdentityProviderRepo::consume_state(&states, "a", now);
    assert_eq!(first, Ok(0));
    assert_eq!(left.len(), 1);
    assert_eq!(left[0].state, "b");
    let (again, _) = IdentityProviderRepo::consume_state(&left, "a", now);
    assert_eq!(again, Err(DbError::NotFound));
    // an expired state is refused, and deleted all the same
    let (late, left) = IdentityProviderRepo::consume_state(&left, "b", now);
    assert_eq!(late, Err(DbError::Conflict(Conflict::OidcStateExpired)));
    assert!(left.is_empty());
}

#[test]
fn reorders_are_raised_for_low_stock_without_a_pending_request() {
    let level = |product_id: u128, on_hand: i64, point: i64, qty: i64| ReorderLevel {
        product_id,
        quantity_on_hand: on_hand,
        reorder_point: point,
        reorder_qty: qty,
    };
    let items = vec![
        level(1, 5, 10, 50),  // low: raised
        level(2, 10, 10, 20), // at the point: not raised
        level(3, 11, 10, 20), // above the point
        level(4, 0, 10, 0),   // no reorder quantity
        level(5, 0, 10, 30),  // already pending
    ];
    assert_eq!(
        InventoryReorderRequestRepo::reorder_candidates(&items, &vec![5]),
        vec![(1, 50)]
    );
    assert!(InventoryReorderRequestRepo::reorder_candidates(&vec![], &vec![]).is_empty());
}

#[test]
fn tokens_use_the_url_safe_alphabet() {
    let raw = ScimTokenRepo::generate_raw_token();
    assert!(raw[5..].chars().all(|c| c.is_ascii_alphanumeric() || c == '-' || c == '_'));
    let link = PaymentLinkRepo::generate_token();
    assert!(link.chars().all(|c| c.is_ascii_alphanumeric() || c == '-' || c == '_'));
}

#[test]
fn an_item_at_its_reorder_point_is_not_reordered() {
    let at_point = ReorderLevel { product_id: 9, quantity_on_hand: 5, reorder_point: 5, reorder_qty: 10 };
    assert!(InventoryReorderRequestRepo::reorder_candidates(&vec![at_point], &vec![]).is_empty());
    let below = ReorderLevel { product_id: 9, quantity_on_hand: 4, reorder_point: 5, reorder_qty: 10 };
    assert_eq!(InventoryReorderRequestRepo::reorder_candidates(&vec![below], &vec![]), vec![(9, 10)]);
}

#[test]
fn provider_types_are_read_from_their_stored_text() {
    assert_eq!(ProviderType::parse("oidc"), Ok(ProviderType::Oidc));
    assert_eq!(ProviderType::parse("saml"), Ok(ProviderType::Saml));
    assert_eq!(ProviderType::Saml.as_str(), "saml");
    assert_eq!(
        ProviderType::parse("ldap"),
        Err(DbError::Internal("unknown provider type: ldap".to_string()))
    );
}
