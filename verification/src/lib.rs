//! Verified business logic of the OxideBooks accounting data layer: calendar
//! arithmetic for recurring documents, amortization and allocation schedules,
//! financial report aggregation, document workflows and journal construction.
use vstd::prelude::*;

pub mod aging;
pub mod cash_flow;
pub mod claims;
pub mod costing;
pub mod dates;
pub mod error;
pub mod filings;
pub mod identity;
pub mod ids;
pub mod intercompany;
pub mod inventory;
pub mod invoices;
pub mod leases;
pub mod ledger;
pub mod payments;
pub mod payroll;
pub mod profitability;
pub mod purchasing;
pub mod quotes;
pub mod receivables;
pub mod recurring;
pub mod reports;
pub mod forecast;
pub mod goods_returns;
pub mod roles;
pub mod sales_orders;
pub mod schedules;
pub mod seqs;
pub mod statements;
pub mod subscriptions;
pub mod summaries;
pub mod text;
pub mod time_ops;
pub mod workforce;

verus! {
} // verus!
