//! Quotes: their status workflow and conversion into an invoice.
use vstd::prelude::*;

use crate::dates::CalDate;
use crate::error::{refuse_status, status_refusal, Conflict, DbError};
use crate::goods_returns::{rma_number, rma_text};
use crate::ids::new_uuid;
use crate::text::str_eq;

verus! {

/// What can happen to a quote.
#[derive(Debug, Clone, Copy, PartialEq, Eq, Structural)]
pub enum QuoteAction {
    Send,
    Accept,
    Decline,
    Expire,
    Convert,
}

/// The status an action starts from.
pub open spec fn quote_from(a: QuoteAction) -> Seq<char> {
    match a {
        QuoteAction::Send => "draft"@,
        QuoteAction::Accept => "sent"@,
        QuoteAction::Decline => "sent"@,
        QuoteAction::Expire => "sent"@,
        QuoteAction::Convert => "accepted"@,
    }
}

/// How a refused action begins its answer; the current status and a closing quote follow.
pub open spec fn quote_refusal(a: QuoteAction) -> Seq<char> {
    match a {
        QuoteAction::Send => "quote cannot be sent from status '"@,
        QuoteAction::Convert => "quote must be accepted before conversion, current status: '"@,
        _ => "quote cannot transition from status '"@,
    }
}

/// The status an action leads to.
pub open spec fn quote_to(a: QuoteAction) -> Seq<char> {
    match a {
        QuoteAction::Send => "sent"@,
        QuoteAction::Accept => "accepted"@,
        QuoteAction::Decline => "declined"@,
        QuoteAction::Expire => "expired"@,
        QuoteAction::Convert => "invoiced"@,
    }
}

/// The dates of the invoice made from a quote.
pub struct QuoteInvoiceDates {
    pub invoice_date: CalDate,
    pub due_date: CalDate,
}

/// Quotes.
pub struct QuoteRepo;

impl QuoteRepo {
    /// The status a quote moves to: an action applies only to an existing quote in the
    /// status it starts from.
    pub fn next_status(current: Option<&str>, action: QuoteAction) -> (r: Result<
        &'static str,
        DbError,
    >)
        ensures
            current is None ==> r == Err::<&'static str, DbError>(DbError::NotFound),
            current matches Some(s) ==> (s@ != quote_from(action) ==> (r matches Err(e)
                && status_refusal(e, quote_refusal(action) + s@ + "'"@))),
            current matches Some(s) && s@ == quote_from(action) ==> (r matches Ok(t) && t@
                == quote_to(action)),
    {
        let (from, to, refusal): (&str, &'static str, &str) = match action {
            QuoteAction::Send => ("draft", "sent", "quote cannot be sent from status '"),
            QuoteAction::Accept => ("sent", "accepted", "quote cannot transition from status '"),
            QuoteAction::Decline => ("sent", "declined", "quote cannot transition from status '"),
            QuoteAction::Expire => ("sent", "expired", "quote cannot transition from status '"),
            QuoteAction::Convert => (
                "accepted",
                "invoiced",
                "quote must be accepted before conversion, current status: '",
            ),
        };
        match current {
            None => Err(DbError::NotFound),
            Some(s) => if str_eq(s, from) {
                Ok(to)
            } else {
                Err(refuse_status(refusal, s, "'"))
            },
        }
    }

    /// Only draft quotes can be edited.
    pub fn check_editable(current: Option<&str>) -> (r: Result<(), DbError>)
        ensures
            current is None ==> r == Err::<(), DbError>(DbError::NotFound),
            current matches Some(s) ==> (s@ != "draft"@ ==> (r matches Err(e) && status_refusal(
                e,
                "quote cannot be edited from status '"@ + s@ + "'"@,
            ))),
            current matches Some(s) && s@ == "draft"@ ==> r is Ok,
    {
        match current {
            None => Err(DbError::NotFound),
            Some(s) => if str_eq(s, "draft") {
                Ok(())
            } else {
                Err(refuse_status("quote cannot be edited from status '", s, "'"))
            },
        }
    }

    /// Only draft quotes can be deleted.
    pub fn check_deletable(current: Option<&str>) -> (r: Result<(), DbError>)
        ensures
            current is None ==> r == Err::<(), DbError>(DbError::NotFound),
            current matches Some(s) ==> (s@ != "draft"@ ==> (r matches Err(e) && status_refusal(
                e,
                "quote cannot be deleted from status '"@ + s@ + "'"@,
            ))),
            current matches Some(s) && s@ == "draft"@ ==> r is Ok,
    {
        match current {
            None => Err(DbError::NotFound),
            Some(s) => if str_eq(s, "draft") {
                Ok(())
            } else {
                Err(refuse_status("quote cannot be deleted from status '", s, "'"))
            },
        }
    }

    /// The sort order of each line of an edited quote: its own when it is not zero,
    /// otherwise its position among the lines.
    pub fn line_sort_orders(sort_orders: &Vec<i32>) -> (r: Vec<i32>)
        requires
            sort_orders.len() <= i32::MAX,
        ensures
            r.len() == sort_orders.len(),
            forall|i: int|
                0 <= i < sort_orders.len() ==> #[trigger] r@[i] == if sort_orders@[i] != 0 {
                    sort_orders@[i] as int
                } else {
                    i
                },
    {
        let mut out: Vec<i32> = Vec::new();
        let mut i: usize = 0;
        while i < sort_orders.len()
            invariant
                i <= sort_orders.len() <= i32::MAX,
                out.len() == i,
                forall|k: int|
                    0 <= k < i ==> #[trigger] out@[k] == if sort_orders@[k] != 0 {
                        sort_orders@[k] as int
                    } else {
                        k
                    },
            decreases sort_orders.len() - i,
        {
            let own = sort_orders[i];
            let sort: i32 = if own != 0 {
                own
            } else {
                i as i32
            };
            out.push(sort);
            i = i + 1;
        }
        out
    }

    /// The number of a quote where the organisation keeps no quote sequence: "QUO-" and the
    /// first eight hex digits, in upper case, of a fresh random UUID.
    pub fn fallback_number() -> (r: String)
        ensures
            exists|u: u128| r@ == rma_text("QUO-"@, u),
    {
        let u = new_uuid();
        rma_number("QUO-", u)
    }

    /// Converting needs an accepted quote with a contact; the invoice is dated the given
    /// date or today, and due the given due date or on its date.
    pub fn plan_convert(
        status: &str,
        has_contact: bool,
        invoice_date: Option<CalDate>,
        due_date: Option<CalDate>,
        today: CalDate,
    ) -> (r: Result<QuoteInvoiceDates, DbError>)
        ensures
            status@ != "accepted"@ ==> (r matches Err(e) && status_refusal(
                e,
                "quote must be accepted before conversion, current status: '"@ + status@ + "'"@,
            )),
            status@ == "accepted"@ && !has_contact ==> r == Err::<QuoteInvoiceDates, DbError>(
                DbError::Conflict(Conflict::MissingContact),
            ),
            status@ == "accepted"@ && has_contact ==> (r matches Ok(d) && d.invoice_date == (
            match invoice_date {
                Some(x) => x,
                None => today,
            }) && d.due_date == (match due_date {
                Some(x) => x,
                None => d.invoice_date,
            })),
    {
        if !str_eq(status, "accepted") {
            return Err(
                refuse_status(
                    "quote must be accepted before conversion, current status: '",
                    status,
                    "'",
                ),
            );
        }
        if !has_contact {
            return Err(DbError::Conflict(Conflict::MissingContact));
        }
        let inv = match invoice_date {
            Some(x) => x,
            None => today,
        };
        let due = match due_date {
            Some(x) => x,
            None => inv,
        };
        Ok(QuoteInvoiceDates { invoice_date: inv, due_date: due })
    }
}

/// A quote reaches `invoiced` only through `draft` → `sent` → `accepted` → `invoiced`:
/// each step's target is the next step's source, and no action leads back to a status
/// an earlier step started from.
pub proof fn lemma_quote_path()
    ensures
        quote_to(QuoteAction::Send) == quote_from(QuoteAction::Accept),
        quote_to(QuoteAction::Accept) == quote_from(QuoteAction::Convert),
        forall|a: QuoteAction| quote_to(a) != "draft"@,
{
    reveal_strlit("draft");
    reveal_strlit("sent");
    reveal_strlit("accepted");
    reveal_strlit("declined");
    reveal_strlit("expired");
    reveal_strlit("invoiced");
    assert("sent"@[0] != "draft"@[0]);
    assert("accepted"@[0] != "draft"@[0]);
    assert("declined"@[1] != "draft"@[1]);
    assert("expired"@[0] != "draft"@[0]);
    assert("invoiced"@[0] != "draft"@[0]);
}

} // verus!
