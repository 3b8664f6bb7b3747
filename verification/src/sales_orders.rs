//! Sales orders: line totals, order numbers, the status workflow and conversion of
//! uninvoiced lines into an invoice.
use vstd::prelude::*;

use crate::error::{refuse, status_refusal, Conflict, DbError};
use crate::recurring::div_trunc;
use crate::seqs::{lemma_sum_push, prefix_sums_fit, sum};
use crate::text::{prefixed_zero_padded, str_eq, zero_padded};

verus! {

/// Net amount of a line: quantity (hundredths) × unit price, less the discount in basis
/// points, each step truncated.
pub open spec fn line_net(quantity: int, unit_price: int, discount_pct: int) -> int {
    let gross = div_trunc(quantity * unit_price, 100);
    gross - div_trunc(gross * discount_pct, 10_000)
}

/// The arithmetic of a line's net amount stays within 64 bits.
pub open spec fn line_net_fits(quantity: int, unit_price: int, discount_pct: int) -> bool {
    &&& i64::MIN <= quantity * unit_price <= i64::MAX
    &&& i64::MIN <= div_trunc(quantity * unit_price, 100) * discount_pct <= i64::MAX
}

/// Computes a line's net amount.
pub fn line_net_amount(quantity: i64, unit_price: i64, discount_pct: i64) -> (r: i64)
    requires
        line_net_fits(quantity as int, unit_price as int, discount_pct as int),
    ensures
        r == line_net(quantity as int, unit_price as int, discount_pct as int),
{
    let gross = quantity * unit_price / 100;
    let discount = gross * discount_pct / 10_000;
    gross - discount
}

/// A line of a sales order.
pub struct SoLine {
    pub id: String,
    pub description: String,
    pub product_id: Option<String>,
    pub quantity: i64,
    pub unit_price: i64,
    pub tax_rate: i64,
    pub discount_pct: i64,
    pub quantity_invoiced: i64,
}

/// A line of the invoice made from a sales order.
pub struct InvoiceLineDraft {
    pub description: String,
    pub quantity: i64,
    pub unit_price: i64,
    pub tax_rate: i64,
    pub discount_pct: i64,
    pub product_id: Option<String>,
}

/// The invoicing state of a sales order after a conversion.
#[derive(Debug, Clone, Copy, PartialEq, Eq, Structural)]
pub enum InvoicingStatus {
    PartiallyInvoiced,
    FullyInvoiced,
}

impl InvoicingStatus {
    /// The status as stored.
    pub fn as_str(&self) -> (r: &'static str)
        ensures
            *self == InvoicingStatus::PartiallyInvoiced ==> r@ == "partially_invoiced"@,
            *self == InvoicingStatus::FullyInvoiced ==> r@ == "fully_invoiced"@,
    {
        match self {
            InvoicingStatus::PartiallyInvoiced => "partially_invoiced",
            InvoicingStatus::FullyInvoiced => "fully_invoiced",
        }
    }
}

/// What converting a sales order to an invoice does: which lines are invoiced, the
/// invoice's lines, and the order's invoiced amount and status afterwards.
pub struct ConversionPlan {
    pub selected: Vec<usize>,
    pub invoice_lines: Vec<InvoiceLineDraft>,
    pub invoiced_amount: i64,
    pub new_status: InvoicingStatus,
}

/// Whether line `l` is converted: listed by id, or, when no ids are given, not yet fully
/// invoiced.
pub open spec fn line_selected(l: SoLine, ids: Seq<Seq<char>>) -> bool {
    if ids.len() == 0 {
        l.quantity_invoiced < l.quantity
    } else {
        ids.contains(l.id@)
    }
}

/// Quantity invoiced on a line after the conversion: the whole quantity if converted.
pub open spec fn invoiced_after(l: SoLine, ids: Seq<Seq<char>>) -> int {
    if line_selected(l, ids) {
        l.quantity as int
    } else {
        l.quantity_invoiced as int
    }
}

/// Invoiced amounts of the lines after the conversion.
pub open spec fn invoiced_amounts(lines: Seq<SoLine>, ids: Seq<Seq<char>>) -> Seq<int> {
    lines.map_values(
        |l: SoLine| line_net(invoiced_after(l, ids), l.unit_price as int, l.discount_pct as int),
    )
}

/// Indices of the converted lines, in order.
pub open spec fn selected_indices(lines: Seq<SoLine>, ids: Seq<Seq<char>>) -> Seq<usize>
    decreases lines.len(),
{
    if lines.len() == 0 {
        Seq::empty()
    } else {
        let rest = selected_indices(lines.drop_last(), ids);
        if line_selected(lines.last(), ids) {
            rest.push((lines.len() - 1) as usize)
        } else {
            rest
        }
    }
}

/// `d` is the invoice line made from order line `l`: the uninvoiced quantity at the
/// line's price, tax rate and discount.
pub open spec fn draft_of(l: SoLine, d: InvoiceLineDraft) -> bool {
    &&& d.description@ == l.description@
    &&& d.quantity == l.quantity - l.quantity_invoiced
    &&& d.unit_price == l.unit_price
    &&& d.tax_rate == l.tax_rate
    &&& d.discount_pct == l.discount_pct
    &&& d.product_id == l.product_id
}

/// The conversion's arithmetic stays within 64 bits.
pub open spec fn conversion_fits(lines: Seq<SoLine>, ids: Seq<Seq<char>>) -> bool {
    &&& forall|i: int|
        0 <= i < lines.len() ==> line_net_fits(
            invoiced_after(#[trigger] lines[i], ids),
            lines[i].unit_price as int,
            lines[i].discount_pct as int,
        )
    &&& forall|i: int|
        0 <= i < lines.len() ==> i64::MIN <= #[trigger] lines[i].quantity
            - lines[i].quantity_invoiced <= i64::MAX
    &&& prefix_sums_fit(invoiced_amounts(lines, ids))
}

/// Sales orders.
pub struct SalesOrderRepo;

impl SalesOrderRepo {
    /// The order number for counter value `n`: `SO-` and at least five digits.
    pub fn order_number(n: i64) -> (r: String)
        ensures
            r@ == "SO-"@ + zero_padded(n as int, 5),
    {
        prefixed_zero_padded("SO-", n, 5)
    }

    /// Only draft orders can be confirmed.
    pub fn check_confirm(status: &str) -> (r: Result<(), DbError>)
        ensures
            r is Ok <==> status@ == "draft"@,
            r matches Err(e) ==> status_refusal(
                e,
                "sales order must be in draft status to confirm"@,
            ),
    {
        if str_eq(status, "draft") {
            Ok(())
        } else {
            Err(refuse("sales order must be in draft status to confirm"))
        }
    }

    /// Draft, confirmed and partially invoiced orders can be cancelled.
    pub fn check_cancel(status: &str) -> (r: Result<(), DbError>)
        ensures
            r is Ok <==> (status@ == "draft"@ || status@ == "confirmed"@ || status@
                == "partially_invoiced"@),
            r matches Err(e) ==> status_refusal(
                e,
                "sales order cannot be cancelled in its current state"@,
            ),
    {
        if str_eq(status, "draft") || str_eq(status, "confirmed") || str_eq(
            status,
            "partially_invoiced",
        ) {
            Ok(())
        } else {
            Err(refuse("sales order cannot be cancelled in its current state"))
        }
    }

    /// Confirmed and partially invoiced orders can be converted to an invoice.
    pub fn check_convert(status: &str) -> (r: Result<(), DbError>)
        ensures
            r is Ok <==> (status@ == "confirmed"@ || status@ == "partially_invoiced"@),
            r matches Err(e) ==> status_refusal(
                e,
                "sales order must be confirmed or partially invoiced to convert"@,
            ),
    {
        if str_eq(status, "confirmed") || str_eq(status, "partially_invoiced") {
            Ok(())
        } else {
            Err(refuse("sales order must be confirmed or partially invoiced to convert"))
        }
    }

    /// Total of an order: the sum of its lines' net amounts.
    pub fn order_total(lines: &Vec<(i64, i64, i64)>) -> (r: i64)
        requires
            forall|i: int|
                0 <= i < lines.len() ==> line_net_fits(
                    (#[trigger] lines[i]).0 as int,
                    lines[i].1 as int,
                    lines[i].2 as int,
                ),
            prefix_sums_fit(
                lines@.map_values(
                    |l: (i64, i64, i64)| line_net(l.0 as int, l.1 as int, l.2 as int),
                ),
            ),
        ensures
            r == sum(
                lines@.map_values(
                    |l: (i64, i64, i64)| line_net(l.0 as int, l.1 as int, l.2 as int),
                ),
            ),
    {
        let ghost nets = lines@.map_values(
            |l: (i64, i64, i64)| line_net(l.0 as int, l.1 as int, l.2 as int),
        );
        let mut total: i64 = 0;
        let mut i: usize = 0;
        while i < lines.len()
            invariant
                i <= lines.len(),
                nets == lines@.map_values(
                    |l: (i64, i64, i64)| line_net(l.0 as int, l.1 as int, l.2 as int),
                ),
                prefix_sums_fit(nets),
                forall|k: int|
                    0 <= k < lines.len() ==> line_net_fits(
                        (#[trigger] lines[k]).0 as int,
                        lines[k].1 as int,
                        lines[k].2 as int,
                    ),
                total == sum(nets.take(i as int)),
            decreases lines.len() - i,
        {
            let (q, p, d) = lines[i];
            let net = line_net_amount(q, p, d);
            proof {
                crate::seqs::lemma_sum_take_succ(nets, i as int);
                assert(i64::MIN <= sum(nets.take(i + 1)) <= i64::MAX);
            }
            total = total + net;
            i = i + 1;
        }
        proof {
            crate::seqs::lemma_take_full(nets);
        }
        total
    }
}

/// The ids as character sequences.
pub open spec fn id_views(ids: Seq<String>) -> Seq<Seq<char>> {
    ids.map_values(|s: String| s@)
}

fn contains_id(ids: &Vec<String>, id: &String) -> (r: bool)
    ensures
        r == id_views(ids@).contains(id@),
{
    let mut i: usize = 0;
    while i < ids.len()
        invariant
            i <= ids.len(),
            forall|k: int| 0 <= k < i ==> (#[trigger] ids@[k])@ != id@,
        decreases ids.len() - i,
    {
        if str_eq(ids[i].as_str(), id.as_str()) {
            proof {
                assert(id_views(ids@)[i as int] == id@);
            }
            return true;
        }
        i = i + 1;
    }
    proof {
        if id_views(ids@).contains(id@) {
            let k = choose|k: int| 0 <= k < id_views(ids@).len() && id_views(ids@)[k] == id@;
            assert(ids@[k]@ == id@);
        }
    }
    false
}

fn clone_opt(s: &Option<String>) -> (r: Option<String>)
    ensures
        r == *s,
{
    match s {
        Some(x) => Some(x.clone()),
        None => None,
    }
}

/// Converting an order without naming lines invoices every line in full, so the order
/// ends fully invoiced.
pub proof fn lemma_convert_all_completes(lines: Seq<SoLine>)
    ensures
        forall|i: int|
            0 <= i < lines.len() ==> invoiced_after(#[trigger] lines[i], Seq::empty())
                >= lines[i].quantity,
{
}

impl SalesOrderRepo {
    /// Plans the conversion of a sales order's lines into an invoice: the lines named by
    /// id (or, with no ids, every line not fully invoiced) are invoiced for their
    /// uninvoiced quantity; afterwards the order's invoiced amount is the net amount of
    /// every line's invoiced quantity, and the order is fully invoiced when no line is
    /// left with less invoiced than ordered.
    pub fn plan_conversion(lines: &Vec<SoLine>, line_ids: &Vec<String>) -> (r: Result<
        ConversionPlan,
        DbError,
    >)
        requires
            conversion_fits(lines@, id_views(line_ids@)),
        ensures
            ({
                let ids = id_views(line_ids@);
                let sel = selected_indices(lines@, ids);
                &&& sel.len() == 0 ==> r == Err::<ConversionPlan, DbError>(
                    DbError::Conflict(Conflict::NoUninvoicedLines),
                )
                &&& sel.len() > 0 ==> (r matches Ok(p) && {
                    &&& p.selected@ == sel
                    &&& p.invoice_lines.len() == sel.len()
                    &&& forall|k: int|
                        0 <= k < sel.len() ==> draft_of(
                            lines@[sel[k] as int],
                            #[trigger] p.invoice_lines@[k],
                        )
                    &&& p.invoiced_amount == sum(invoiced_amounts(lines@, ids))
                    &&& (p.new_status == InvoicingStatus::FullyInvoiced <==> forall|i: int|
                        0 <= i < lines.len() ==> invoiced_after(#[trigger] lines@[i], ids)
                            >= lines@[i].quantity)
                })
            }),
    {
        let ghost ids = id_views(line_ids@);
        let ghost amounts = invoiced_amounts(lines@, ids);
        let no_ids = line_ids.len() == 0;
        let mut selected: Vec<usize> = Vec::new();
        let mut drafts: Vec<InvoiceLineDraft> = Vec::new();
        let mut amount: i64 = 0;
        let mut all_done = true;
        let mut i: usize = 0;
        while i < lines.len()
            invariant
                i <= lines.len(),
                ids == id_views(line_ids@),
                no_ids == (ids.len() == 0),
                amounts == invoiced_amounts(lines@, ids),
                conversion_fits(lines@, ids),
                selected@ == selected_indices(lines@.take(i as int), ids),
                drafts.len() == selected.len(),
                forall|k: int|
                    0 <= k < selected.len() ==> (#[trigger] selected@[k]) < i && draft_of(
                        lines@[selected@[k] as int],
                        drafts@[k],
                    ),
                amount == sum(amounts.take(i as int)),
                all_done == forall|k: int|
                    0 <= k < i ==> invoiced_after(#[trigger] lines@[k], ids) >= lines@[k].quantity,
            decreases lines.len() - i,
        {
            let l = &lines[i];
            proof {
                assert(lines@.take(i + 1).drop_last() =~= lines@.take(i as int));
                crate::seqs::lemma_sum_take_succ(amounts, i as int);
                assert(i64::MIN <= sum(amounts.take(i + 1)) <= i64::MAX);
            }
            let sel = if no_ids {
                l.quantity_invoiced < l.quantity
            } else {
                contains_id(line_ids, &l.id)
            };
            let after = if sel {
                l.quantity
            } else {
                l.quantity_invoiced
            };
            if sel {
                selected.push(i);
                drafts.push(
                    InvoiceLineDraft {
                        description: l.description.clone(),
                        quantity: l.quantity - l.quantity_invoiced,
                        unit_price: l.unit_price,
                        tax_rate: l.tax_rate,
                        discount_pct: l.discount_pct,
                        product_id: clone_opt(&l.product_id),
                    },
                );
            }
            let net = line_net_amount(after, l.unit_price, l.discount_pct);
            amount = amount + net;
            let ghost prev = all_done;
            if after < l.quantity {
                all_done = false;
            }
            proof {
                assert(invoiced_after(lines@[i as int], ids) == after);
                if !prev {
                    let k = choose|k: int|
                        0 <= k < i && !(invoiced_after(#[trigger] lines@[k], ids)
                            >= lines@[k].quantity);
                    assert(!(invoiced_after(lines@[k], ids) >= lines@[k].quantity));
                }
            }
            i = i + 1;
        }
        proof {
            crate::seqs::lemma_take_full(lines@);
            crate::seqs::lemma_take_full(amounts);
        }
        if selected.len() == 0 {
            return Err(DbError::Conflict(Conflict::NoUninvoicedLines));
        }
        let new_status = if all_done {
            InvoicingStatus::FullyInvoiced
        } else {
            InvoicingStatus::PartiallyInvoiced
        };
        Ok(ConversionPlan { selected, invoice_lines: drafts, invoiced_amount: amount, new_status })
    }
}

} // verus!
