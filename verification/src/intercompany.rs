//! Intercompany transactions: one amount booked in two organizations at once.
use vstd::prelude::*;

use crate::error::{Conflict, DbError};
use crate::ledger::{balanced, is_credit_line, is_debit_line, transfer_lines, JournalLine};

verus! {

/// The accounts an intercompany transaction is booked to in each organization.
pub struct IntercompanyAccounts {
    pub debit_account_id_a: String,
    pub credit_account_id_a: String,
    pub debit_account_id_b: String,
    pub credit_account_id_b: String,
}

/// The two journal entries of an intercompany transaction.
pub struct IntercompanyEntries {
    pub entry_a: Vec<JournalLine>,
    pub entry_b: Vec<JournalLine>,
}

/// Links and transactions between organizations.
pub struct IntercompanyRepo;

impl IntercompanyRepo {
    /// Plans an intercompany transaction: the amount must be positive; each organization
    /// debits its debit account and credits its credit account with the amount.
    pub fn plan_transaction(amount: i64, a: &IntercompanyAccounts) -> (r: Result<
        IntercompanyEntries,
        DbError,
    >)
        ensures
            amount <= 0 ==> r == Err::<IntercompanyEntries, DbError>(
                DbError::Conflict(Conflict::NonPositiveAmount),
            ),
            amount > 0 ==> (r matches Ok(e) && {
                &&& e.entry_a.len() == 2 && e.entry_b.len() == 2
                &&& is_debit_line(e.entry_a@[0], a.debit_account_id_a@, amount as int)
                &&& is_credit_line(e.entry_a@[1], a.credit_account_id_a@, amount as int)
                &&& is_debit_line(e.entry_b@[0], a.debit_account_id_b@, amount as int)
                &&& is_credit_line(e.entry_b@[1], a.credit_account_id_b@, amount as int)
                &&& balanced(e.entry_a@) && balanced(e.entry_b@)
                &&& e.entry_a@[0].description is None && e.entry_a@[1].description is None
                &&& e.entry_b@[0].description is None && e.entry_b@[1].description is None
            }),
    {
        if amount <= 0 {
            return Err(DbError::Conflict(Conflict::NonPositiveAmount));
        }
        let entry_a = transfer_lines(
            a.debit_account_id_a.as_str(),
            a.credit_account_id_a.as_str(),
            amount,
            None,
            None,
        );
        let entry_b = transfer_lines(
            a.debit_account_id_b.as_str(),
            a.credit_account_id_b.as_str(),
            amount,
            None,
            None,
        );
        Ok(IntercompanyEntries { entry_a, entry_b })
    }
}

} // verus!
