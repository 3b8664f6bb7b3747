use oxidebooks_db::claims::{ProgressClaimRepo, ProjectBilling};
use oxidebooks_db::error::{check_transition, Conflict, DbError};
use oxidebooks_db::goods_returns::{
    rma_number, PurchaseReturnRepo, ReturnLine, SalesReturnRepo,
};
use oxidebooks_db::invoices::{InvoiceKind, InvoiceRepo, PaymentState, PricedLine};
use oxidebooks_db::payments::{Dec, FxKind, PaymentRepo};
use oxidebooks_db::purchasing::{
    GrnLine, GrnRepo, PoLineQty, PurchaseOrderRepo, PurchaseRequisitionRepo, Receipt,
    ReceivingStatus,
};
use oxidebooks_db::quotes::{QuoteAction, QuoteRepo};
use oxidebooks_db::roles::system_role_id;
use oxidebooks_db::sales_orders::{line_net_amount, InvoicingStatus, SalesOrderRepo, SoLine};

fn so_line(id: &str, qty: i64, invoiced: i64) -> SoLine {
    SoLine {
        id: id.to_string(),
        description: format!("line {id}"),
        product_id: None,
        quantity: qty,
        unit_price: 1000,
        tax_rate: 0,
        discount_pct: 0,
        quantity_invoiced: invoiced,
    }
}

#[test]
fn system_roles_map_to_seeded_ids() {
    assert_eq!(system_role_id("owner"), Some("00000000-0000-0000-0000-000000000001"));
    assert_eq!(system_role_id("viewer"), Some("00000000-0000-0000-0000-000000000004"));
    assert_eq!(system_role_id("auditor"), None);
}

#[test]
fn sales_order_line_net_and_number() {
    // 2.50 units at 40.00, 10% discount: gross 10000, discount 1000.
    assert_eq!(line_net_amount(250, 4000, 1000), 9000);
    assert_eq!(SalesOrderRepo::order_number(42), "SO-00042");
    assert_eq!(SalesOrderRepo::order_number(123456), "SO-123456");
    assert_eq!(SalesOrderRepo::order_total(&vec![(100, 500, 0), (300, 100, 5000)]), 650);
}

#[test]
fn sales_order_workflow_checks() {
    assert!(SalesOrderRepo::check_confirm("draft").is_ok());
    assert!(SalesOrderRepo::check_confirm("confirmed").is_err());
    assert!(SalesOrderRepo::check_cancel("partially_invoiced").is_ok());
    assert!(SalesOrderRepo::check_cancel("fully_invoiced").is_err());
    assert_eq!(
        SalesOrderRepo::check_convert("draft"),
        Err(DbError::Conflict(Conflict::InvalidStatus(
            "sales order must be confirmed or partially invoiced to convert".to_string()
        )))
    );
}

#[test]
fn converting_all_lines_completes_order() {
    let lines = vec![so_line("a", 200, 0), so_line("b", 100, 100)];
    let p = SalesOrderRepo::plan_conversion(&lines, &vec![]).ok().unwrap();
    assert_eq!(p.selected, vec![0]);
    assert_eq!(p.invoice_lines.len(), 1);
    assert_eq!(p.invoice_lines[0].quantity, 200);
    assert_eq!(p.invoiced_amount, 3000);
    assert_eq!(p.new_status, InvoicingStatus::FullyInvoiced);
    assert_eq!(p.new_status.as_str(), "fully_invoiced");
}

#[test]
fn converting_named_lines_leaves_order_partial() {
    let lines = vec![so_line("a", 200, 0), so_line("b", 100, 0)];
    let p = SalesOrderRepo::plan_conversion(&lines, &vec!["b".to_string()]).ok().unwrap();
    assert_eq!(p.selected, vec![1]);
    assert_eq!(p.invoiced_amount, 1000);
    assert_eq!(p.new_status, InvoicingStatus::PartiallyInvoiced);
    let done = vec![so_line("a", 200, 200)];
    assert!(matches!(
        SalesOrderRepo::plan_conversion(&done, &vec![]),
        Err(DbError::Conflict(Conflict::NoUninvoicedLines))
    ));
}

#[test]
fn returns_follow_their_workflow() {
    assert_eq!(check_transition(None, "approved", "x '"), Err(DbError::NotFound));
    assert!(SalesReturnRepo::check_receive(Some("approved")).is_ok());
    assert_eq!(
        SalesReturnRepo::check_approve(Some("received")),
        Err(DbError::Conflict(Conflict::InvalidStatus(
            "return cannot be approved from status 'received'".to_string()
        )))
    );
    assert!(PurchaseReturnRepo::check_ship(Some("approved")).is_ok());
    assert_eq!(
        PurchaseReturnRepo::check_ship(Some("shipped")),
        Err(DbError::Conflict(Conflict::InvalidStatus(
            "purchase return cannot be shipped from status 'shipped'".to_string()
        )))
    );
}

#[test]
fn rma_number_uses_leading_hex_digits() {
    let id: u128 = 0x1a2b3c4d_0000_0000_0000_0000_0000_0001;
    assert_eq!(rma_number("RMA-", id), "RMA-1A2B3C4D");
    let fresh = SalesReturnRepo::new_rma_number();
    assert!(fresh.starts_with("RMA-") && fresh.len() == 12);
    let fresh = PurchaseReturnRepo::new_rma_number();
    assert!(fresh.starts_with("PRMA-") && fresh.len() == 13);
}

#[test]
fn receiving_a_return_restocks_and_credits() {
    let lines = vec![
        ReturnLine { product_id: Some("p1".into()), description: "a".into(), quantity: 250, unit_price: 1000, restock: true },
        ReturnLine { product_id: Some("p2".into()), description: "b".into(), quantity: 100, unit_price: 500, restock: false },
        ReturnLine { product_id: None, description: "c".into(), quantity: 100, unit_price: 100, restock: true },
    ];
    let p = SalesReturnRepo::plan_receive(&lines);
    assert_eq!(p.restock.len(), 1);
    assert_eq!(p.restock[0].product_id, "p1");
    assert_eq!(p.restock[0].quantity, 2);
    assert_eq!(p.credit_amount, Some(2500 + 500 + 100));
    let s = PurchaseReturnRepo::plan_ship(&lines);
    assert_eq!(s.stock_out.len(), 2);
    assert_eq!(s.stock_out[0].quantity, -2);
    assert_eq!(s.stock_out[1].quantity, -1);
    assert_eq!(s.credit_lines.len(), 3);
    let empty = PurchaseReturnRepo::plan_ship(&vec![]);
    assert_eq!(empty.credit_amount, None);
}

#[test]
fn invoice_numbers_and_totals() {
    assert_eq!(InvoiceRepo::invoice_number(InvoiceKind::Invoice, 7), "INV-00007");
    assert_eq!(InvoiceRepo::invoice_number(InvoiceKind::Bill, 7), "BILL-00007");
    let l = PricedLine { quantity: 100, unit_price: 10000, discount_pct: 0, tax_rate: 1300 };
    assert_eq!(InvoiceRepo::line_total(l), 11300);
    assert_eq!(InvoiceRepo::total(&vec![l, l]), 22600);
}

#[test]
fn payments_set_invoice_status() {
    assert_eq!(PaymentRepo::synced_status("sent", 1000, 1000), Some(PaymentState::Paid));
    assert_eq!(PaymentRepo::synced_status("paid", 1000, 400), Some(PaymentState::Partial));
    assert_eq!(PaymentRepo::synced_status("partial", 1000, 0), Some(PaymentState::Sent));
    assert_eq!(PaymentRepo::synced_status("draft", 1000, 1000), None);
    assert_eq!(PaymentRepo::synced_status("voided", 1000, 1000), None);
}

#[test]
fn realized_fx_is_computed_with_decimals() {
    let one = Dec { mantissa: 1, scale: 0 };
    let one_point_one = Dec { mantissa: 11, scale: 1 };
    assert_eq!(PaymentRepo::realized_fx_amount(1000, one, None), Some(0));
    assert_eq!(PaymentRepo::realized_fx_amount(1000, one, Some(Dec { mantissa: 100, scale: 2 })), Some(0));
    // 1000 - 1000 * 1.1 / 1 = -100
    assert_eq!(PaymentRepo::realized_fx_amount(1000, one_point_one, Some(one)), Some(-100));
    // 1000 - 1000 * 1 / 1.1 = 90.909... rounds to 91
    assert_eq!(PaymentRepo::realized_fx_amount(1000, one, Some(one_point_one)), Some(91));
}

#[test]
fn fx_gain_and_loss_entries_balance() {
    let g = PaymentRepo::fx_posting(500, false, "ar", "fx").ok().unwrap().unwrap();
    assert_eq!(g.kind, FxKind::Gain);
    assert_eq!((g.lines[0].account_id.as_str(), g.lines[0].debit), ("ar", 500));
    assert_eq!((g.lines[1].account_id.as_str(), g.lines[1].credit), ("fx", 500));
    let l = PaymentRepo::fx_posting(-300, false, "ar", "fx").ok().unwrap().unwrap();
    assert_eq!(l.kind, FxKind::Loss);
    assert_eq!((l.lines[0].account_id.as_str(), l.lines[0].debit), ("fx", 300));
    assert_eq!((l.lines[1].account_id.as_str(), l.lines[1].credit), ("ar", 300));
    assert!(PaymentRepo::fx_posting(0, true, "ar", "fx").ok().unwrap().is_none());
    assert!(PaymentRepo::fx_posting(5, true, "ar", "fx").ok().unwrap().is_none());
    assert!(PaymentRepo::fx_posting(-5, true, "ar", "fx").ok().unwrap().is_none());
    assert_eq!(g.lines[0].description.as_deref(), Some("Realized FX gain — AR settlement"));
    assert_eq!(g.lines[1].description.as_deref(), Some("Realized FX gain"));
    assert_eq!(l.lines[0].description.as_deref(), Some("Realized FX loss"));
    assert_eq!(l.lines[1].description.as_deref(), Some("Realized FX loss — AR settlement"));
    assert_eq!(PaymentRepo::fx_reference("1a2b3c4d-aaaa-bbbb-cccc-000000000000"), "FX-1a2b3c4d");
}

#[test]
fn refunds_are_checked() {
    assert!(PaymentRepo::check_refund("recorded", 1000, 1000).is_ok());
    assert_eq!(
        PaymentRepo::check_refund("recorded", 1000, 1001),
        Err(DbError::Conflict(Conflict::InvalidRefundAmount))
    );
    assert_eq!(
        PaymentRepo::check_refund("voided", 1000, 10),
        Err(DbError::Conflict(Conflict::RefundOfVoidedPayment))
    );
}

#[test]
fn progress_claims_respect_contract_and_retainage() {
    assert!(ProgressClaimRepo::check_claim_pct(6000, 4000).is_ok());
    assert_eq!(
        ProgressClaimRepo::check_claim_pct(6000, 4500),
        Err(DbError::Conflict(Conflict::ClaimExceedsContract { claimed_pct: 60, requested_pct: 45 }))
    );
    assert_eq!(ProgressClaimRepo::claim_split(100_000, 1000), (10_000, 90_000));
    let l = ProgressClaimRepo::plan_release(false, 25_000, true).ok().unwrap();
    assert_eq!((l.quantity, l.unit_price), (100, 25_000));
    assert!(matches!(
        ProgressClaimRepo::plan_release(true, 25_000, true),
        Err(DbError::Conflict(Conflict::RetainageAlreadyReleased))
    ));
    assert!(matches!(
        ProgressClaimRepo::plan_release(false, 0, true),
        Err(DbError::Conflict(Conflict::NoRetainage))
    ));
    assert!(matches!(
        ProgressClaimRepo::plan_invoice("draft", true, 10),
        Err(DbError::Conflict(Conflict::ClaimNotApproved))
    ));
    assert!(matches!(
        ProgressClaimRepo::plan_invoice("approved", false, 10),
        Err(DbError::Conflict(Conflict::ProjectHasNoContact))
    ));
}

#[test]
fn billing_report_totals() {
    let rows = vec![
        ProjectBilling { project_id: 1, project_name: "A".into(), billing_method: "fixed".into(), contract_amount: 1000, billed_amount: 400, retainage_held: 40 },
        ProjectBilling { project_id: 2, project_name: "B".into(), billing_method: "tm".into(), contract_amount: 500, billed_amount: 500, retainage_held: 0 },
    ];
    let r = ProgressClaimRepo::billing_report(&rows);
    assert_eq!(r.rows[0].unbilled_amount, 600);
    assert_eq!((r.total_contract, r.total_billed, r.total_retainage, r.total_unbilled), (1500, 900, 40, 600));
}

#[test]
fn purchase_order_receipts_are_capped() {
    let lines = vec![
        PoLineQty { id: 1, quantity: 10, quantity_received: 0 },
        PoLineQty { id: 2, quantity: 5, quantity_received: 5 },
    ];
    let after = PurchaseOrderRepo::apply_receipts(&lines, &vec![Receipt { line_id: 1, quantity: 7 }, Receipt { line_id: 1, quantity: 7 }]);
    assert_eq!(after[0].quantity_received, 10);
    assert_eq!(PurchaseOrderRepo::receiving_status_of(&after), Some(ReceivingStatus::Received));
    assert_eq!(PurchaseOrderRepo::receiving_status_of(&lines), Some(ReceivingStatus::PartiallyReceived));
    assert_eq!(PurchaseOrderRepo::receiving_status_of(&vec![]), None);
    assert_eq!(PurchaseOrderRepo::po_number(3), "PO-00003");
    assert!(PurchaseOrderRepo::check_receive("billed").is_err());
}

#[test]
fn posting_a_goods_receipt_receives_the_order() {
    let po = vec![PoLineQty { id: 1, quantity: 10, quantity_received: 4 }];
    let grn = vec![
        GrnLine { po_line_id: 1, item_id: Some(9), lot_id: None, quantity_received: 6, unit_cost: 3 },
    ];
    let p = GrnRepo::plan_post("draft", &grn, &po, "sent").ok().unwrap();
    assert_eq!(p.po_lines[0].quantity_received, 10);
    assert!(p.order_received);
    assert_eq!(p.stock.len(), 1);
    let v = GrnRepo::plan_post("draft", &grn, &po, "voided").ok().unwrap();
    assert!(!v.order_received);
    assert!(matches!(
        GrnRepo::plan_post("posted", &grn, &po, "sent"),
        Err(DbError::Conflict(Conflict::AlreadyPosted))
    ));
}

#[test]
fn requisition_totals_and_steps() {
    assert_eq!(PurchaseRequisitionRepo::total(&vec![(2, 150), (3, 10)]), 330);
    assert!(PurchaseRequisitionRepo::check_step("submitted", "submitted").is_ok());
    assert_eq!(
        PurchaseRequisitionRepo::check_step("draft", "approved"),
        Err(DbError::Conflict(Conflict::InvalidStatus(
            "requisition is not in approved status".to_string()
        )))
    );
}

#[test]
fn quote_workflow() {
    assert_eq!(QuoteRepo::next_status(Some("draft"), QuoteAction::Send), Ok("sent"));
    assert_eq!(QuoteRepo::next_status(Some("sent"), QuoteAction::Accept), Ok("accepted"));
    assert_eq!(
        QuoteRepo::next_status(Some("draft"), QuoteAction::Convert),
        Err(DbError::Conflict(Conflict::InvalidStatus(
            "quote must be accepted before conversion, current status: 'draft'".to_string()
        )))
    );
    assert_eq!(QuoteRepo::next_status(None, QuoteAction::Expire), Err(DbError::NotFound));
    assert_eq!(
        QuoteRepo::check_editable(Some("sent")),
        Err(DbError::Conflict(Conflict::InvalidStatus(
            "quote cannot be edited from status 'sent'".to_string()
        )))
    );
    assert_eq!(
        QuoteRepo::check_deletable(Some("accepted")),
        Err(DbError::Conflict(Conflict::InvalidStatus(
            "quote cannot be deleted from status 'accepted'".to_string()
        )))
    );
    assert_eq!(
        QuoteRepo::next_status(Some("accepted"), QuoteAction::Send),
        Err(DbError::Conflict(Conflict::InvalidStatus(
            "quote cannot be sent from status 'accepted'".to_string()
        )))
    );
    assert_eq!(
        QuoteRepo::next_status(Some("draft"), QuoteAction::Decline),
        Err(DbError::Conflict(Conflict::InvalidStatus(
            "quote cannot transition from status 'draft'".to_string()
        )))
    );
}

#[test]
fn edited_quote_lines_keep_their_sort_order_or_position() {
    assert_eq!(QuoteRepo::line_sort_orders(&vec![0, 7, 0, -2]), vec![0, 7, 2, -2]);
    assert!(QuoteRepo::line_sort_orders(&vec![]).is_empty());
}

#[test]
fn purchase_orders_are_approved_from_draft() {
    assert!(PurchaseOrderRepo::check_approve(Some("draft")).is_ok());
    assert_eq!(
        PurchaseOrderRepo::check_approve(Some("approved")),
        Err(DbError::Conflict(Conflict::InvalidStatus(
            "PO cannot be approved from status 'approved'".to_string()
        )))
    );
    assert_eq!(PurchaseOrderRepo::check_approve(None), Err(DbError::NotFound));
    assert_eq!(
        PurchaseOrderRepo::check_receive("billed"),
        Err(DbError::Conflict(Conflict::InvalidStatus("PO cannot receive in current status".to_string())))
    );
}

#[test]
fn quote_fallback_number_is_quo_and_eight_upper_hex_digits() {
    let n = QuoteRepo::fallback_number();
    assert!(n.starts_with("QUO-") && n.len() == 12);
    assert!(n[4..].chars().all(|c| c.is_ascii_digit() || ('A'..='F').contains(&c)));
}

#[test]
fn receipt_lines_must_name_lines_of_the_order() {
    let a = "00000000-0000-0000-0000-000000000001".to_string();
    let b = "00000000-0000-0000-0000-0000000000ff".to_string();
    let order = vec![1u128, 0xff, 7];
    assert_eq!(GrnRepo::check_lines_on_order(&vec![b.clone(), a.clone()], &order), Ok(vec![0xff, 1]));
    assert_eq!(GrnRepo::check_lines_on_order(&Vec::new(), &order), Ok(Vec::new()));
    let stranger = "00000000-0000-0000-0000-000000000002".to_string();
    assert_eq!(
        GrnRepo::check_lines_on_order(&vec![a.clone(), stranger.clone(), "junk".to_string()], &order),
        Err(DbError::Conflict(Conflict::InvalidStatus(format!(
            "po_line_id {stranger} does not belong to this purchase order"
        ))))
    );
    assert_eq!(
        GrnRepo::check_lines_on_order(&vec![a, "junk".to_string(), stranger], &order),
        Err(DbError::Conflict(Conflict::InvalidUuid("junk".to_string())))
    );
}

#[test]
fn voiding_a_payment_restores_the_invoice_to_sent() {
    assert_eq!(PaymentRepo::plan_void(Some("recorded"), "paid"), Ok(Some(PaymentState::Sent)));
    // even where other recorded payments remain on the invoice
    assert_eq!(PaymentRepo::plan_void(Some("recorded"), "partial"), Ok(Some(PaymentState::Sent)));
    assert_eq!(PaymentRepo::plan_void(Some("recorded"), "draft"), Ok(None));
    assert_eq!(PaymentRepo::plan_void(Some("recorded"), "sent"), Ok(None));
    assert_eq!(PaymentRepo::plan_void(None, "paid"), Err(DbError::NotFound));
    assert_eq!(
        PaymentRepo::plan_void(Some("voided"), "paid"),
        Err(DbError::Conflict(Conflict::InvalidStatus(
            "payment cannot be voided from status 'voided'".to_string()
        )))
    );
}

#[test]
fn exchange_differences_round_half_to_even() {
    let one = Dec { mantissa: 1, scale: 0 };
    let two = Dec { mantissa: 2, scale: 0 };
    let three = Dec { mantissa: 3, scale: 0 };
    // 5 - 5 * 1 / 2 = 2.5 -> 2; 7 - 3.5 = 3.5 -> 4; 5 - 7.5 = -2.5 -> -2
    assert_eq!(PaymentRepo::realized_fx_amount(5, one, Some(two)), Some(2));
    assert_eq!(PaymentRepo::realized_fx_amount(7, one, Some(two)), Some(4));
    assert_eq!(PaymentRepo::realized_fx_amount(5, three, Some(two)), Some(-2));
}
