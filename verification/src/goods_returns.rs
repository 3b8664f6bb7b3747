//! Sales returns (RMAs) and purchase returns: their status workflow, the stock they move
//! and the credit they raise.
use vstd::prelude::*;

use crate::error::{check_transition, status_view, transition_checked, DbError};
use crate::ids::new_uuid;
use crate::recurring::div_trunc;
use crate::seqs::{prefix_sums_fit, sum};
use crate::text::{hex_digits, hex_fixed, str_eq};

verus! {

/// A returned line: quantity in hundredths of a unit, unit price in cents.
pub struct ReturnLine {
    pub product_id: Option<String>,
    pub description: String,
    pub quantity: i64,
    pub unit_price: i64,
    /// Whether a customer return puts the goods back in stock.
    pub restock: bool,
}

/// A change of a product's stock level, in whole units.
pub struct StockAdjustment {
    pub product_id: String,
    pub quantity: i64,
}

/// A line of the credit raised by a return.
pub struct CreditLineDraft {
    pub description: String,
    pub quantity: i64,
    pub unit_price: i64,
}

/// Number of a return: a prefix and the first eight hex digits of an identifier.
pub open spec fn rma_text(prefix: Seq<char>, id: u128) -> Seq<char> {
    prefix + hex_digits((id as nat) / 0x1_0000_0000_0000_0000_0000_0000, 8)
}

/// The value of a returned line: quantity × price / 100, truncated.
pub open spec fn return_line_value(l: ReturnLine) -> int {
    div_trunc(l.quantity * l.unit_price, 100)
}

/// Values of returned lines.
pub open spec fn return_values(lines: Seq<ReturnLine>) -> Seq<int> {
    lines.map_values(|l: ReturnLine| return_line_value(l))
}

/// Valuing the lines never overflows.
pub open spec fn return_values_fit(lines: Seq<ReturnLine>) -> bool {
    &&& forall|i: int|
        0 <= i < lines.len() ==> i64::MIN <= (#[trigger] lines[i]).quantity * lines[i].unit_price
            <= i64::MAX
    &&& prefix_sums_fit(return_values(lines))
}

/// The stock movements of returned lines that name a product (and, when `only_restock`,
/// are marked for restocking), with quantity `sign × (quantity / 100)`.
pub open spec fn stock_moves(lines: Seq<ReturnLine>, only_restock: bool, sign: int) -> Seq<
    (Seq<char>, int),
>
    decreases lines.len(),
{
    if lines.len() == 0 {
        Seq::empty()
    } else {
        let rest = stock_moves(lines.drop_last(), only_restock, sign);
        let l = lines.last();
        match l.product_id {
            Some(p) => if !only_restock || l.restock {
                rest.push((p@, sign * div_trunc(l.quantity as int, 100)))
            } else {
                rest
            },
            None => rest,
        }
    }
}

/// The movements as plain values.
pub open spec fn adjustment_views(a: Seq<StockAdjustment>) -> Seq<(Seq<char>, int)> {
    a.map_values(|x: StockAdjustment| (x.product_id@, x.quantity as int))
}

/// The number of a return with identifier `id`: `prefix` and the first eight hex digits
/// of the identifier's canonical text, upper case.
pub fn rma_number(prefix: &str, id: u128) -> (r: String)
    ensures
        r@ == rma_text(prefix@, id),
{
    let top: u64 = (id / 0x1_0000_0000_0000_0000_0000_0000) as u64;
    let mut s = String::from_str(prefix);
    let h = hex_fixed(top, 8);
    s.append(h.as_str());
    s
}

/// Total value of returned lines.
pub fn returned_value(lines: &Vec<ReturnLine>) -> (r: i64)
    requires
        return_values_fit(lines@),
    ensures
        r == sum(return_values(lines@)),
{
    let ghost vals = return_values(lines@);
    let mut total: i64 = 0;
    let mut i: usize = 0;
    while i < lines.len()
        invariant
            i <= lines.len(),
            vals == return_values(lines@),
            return_values_fit(lines@),
            total == sum(vals.take(i as int)),
        decreases lines.len() - i,
    {
        proof {
            crate::seqs::lemma_sum_take_succ(vals, i as int);
            assert(i64::MIN <= sum(vals.take(i + 1)) <= i64::MAX);
            assert(i64::MIN <= lines@[i as int].quantity * lines@[i as int].unit_price <= i64::MAX);
        }
        let v = lines[i].quantity * lines[i].unit_price / 100;
        total = total + v;
        i = i + 1;
    }
    proof {
        crate::seqs::lemma_take_full(vals);
    }
    total
}

/// Stock movements of returned lines (see [`stock_moves`]).
pub fn stock_adjustments(lines: &Vec<ReturnLine>, only_restock: bool, outgoing: bool) -> (r: Vec<
    StockAdjustment,
>)
    ensures
        adjustment_views(r@) == stock_moves(lines@, only_restock, if outgoing {
            -1
        } else {
            1
        }),
{
    let ghost sign: int = if outgoing {
        -1
    } else {
        1
    };
    let mut out: Vec<StockAdjustment> = Vec::new();
    let mut i: usize = 0;
    while i < lines.len()
        invariant
            i <= lines.len(),
            sign == (if outgoing {
                -1int
            } else {
                1int
            }),
            adjustment_views(out@) == stock_moves(lines@.take(i as int), only_restock, sign),
        decreases lines.len() - i,
    {
        let l = &lines[i];
        proof {
            assert(lines@.take(i + 1).drop_last() =~= lines@.take(i as int));
        }
        match &l.product_id {
            Some(p) => {
                if !only_restock || l.restock {
                    let units = l.quantity / 100;
                    let q = if outgoing {
                        -units
                    } else {
                        units
                    };
                    let ghost before = out@;
                    out.push(StockAdjustment { product_id: p.clone(), quantity: q });
                    proof {
                        assert(adjustment_views(out@) =~= adjustment_views(before).push(
                            (p@, q as int),
                        ));
                    }
                }
            },
            None => {},
        }
        i = i + 1;
    }
    proof {
        crate::seqs::lemma_take_full(lines@);
    }
    out
}

/// What receiving a customer return does: restock the lines marked for it, and credit
/// the customer with the value of all lines when it is positive (the return is then
/// closed).
pub struct ReceivePlan {
    pub restock: Vec<StockAdjustment>,
    pub credit_amount: Option<i64>,
}

/// What shipping a purchase return does: take the lines' products out of stock, and raise
/// a vendor credit for the lines' value when it is positive (the return is then closed).
pub struct ShipPlan {
    pub stock_out: Vec<StockAdjustment>,
    pub credit_amount: Option<i64>,
    pub credit_lines: Vec<CreditLineDraft>,
}

/// Customer returns (RMAs).
pub struct SalesReturnRepo;

impl SalesReturnRepo {
    /// A fresh RMA number, `RMA-` and eight upper-case hex digits of a random identifier.
    pub fn new_rma_number() -> (r: String)
        ensures
            exists|u: u128| r@ == rma_text("RMA-"@, u),
    {
        let u = new_uuid();
        rma_number("RMA-", u)
    }

    /// Approval starts from a requested return.
    pub fn check_approve(current: Option<&str>) -> (r: Result<(), DbError>)
        ensures
            transition_checked(
                status_view(current),
                "requested"@,
                "return cannot be approved from status '"@,
                r,
            ),
    {
        check_transition(current, "requested", "return cannot be approved from status '")
    }

    /// Receipt starts from an approved return.
    pub fn check_receive(current: Option<&str>) -> (r: Result<(), DbError>)
        ensures
            transition_checked(
                status_view(current),
                "approved"@,
                "return cannot be received from status '"@,
                r,
            ),
    {
        check_transition(current, "approved", "return cannot be received from status '")
    }

    /// Plans the receipt of a return.
    pub fn plan_receive(lines: &Vec<ReturnLine>) -> (r: ReceivePlan)
        requires
            return_values_fit(lines@),
        ensures
            adjustment_views(r.restock@) == stock_moves(lines@, true, 1),
            sum(return_values(lines@)) > 0 ==> r.credit_amount == Some(
                sum(return_values(lines@)) as i64,
            ),
            sum(return_values(lines@)) <= 0 ==> r.credit_amount is None,
    {
        let restock = stock_adjustments(lines, true, false);
        let total = returned_value(lines);
        let credit_amount = if total > 0 {
            Some(total)
        } else {
            None
        };
        ReceivePlan { restock, credit_amount }
    }
}

/// Returns of goods to vendors.
pub struct PurchaseReturnRepo;

impl PurchaseReturnRepo {
    /// A fresh return number, `PRMA-` and eight upper-case hex digits of a random identifier.
    pub fn new_rma_number() -> (r: String)
        ensures
            exists|u: u128| r@ == rma_text("PRMA-"@, u),
    {
        let u = new_uuid();
        rma_number("PRMA-", u)
    }

    /// Approval starts from a requested return.
    pub fn check_approve(current: Option<&str>) -> (r: Result<(), DbError>)
        ensures
            transition_checked(
                status_view(current),
                "requested"@,
                "purchase return cannot be approved from status '"@,
                r,
            ),
    {
        check_transition(current, "requested", "purchase return cannot be approved from status '")
    }

    /// Shipping starts from an approved return.
    pub fn check_ship(current: Option<&str>) -> (r: Result<(), DbError>)
        ensures
            transition_checked(
                status_view(current),
                "approved"@,
                "purchase return cannot be shipped from status '"@,
                r,
            ),
    {
        check_transition(current, "approved", "purchase return cannot be shipped from status '")
    }

    /// Plans the shipment of a return.
    pub fn plan_ship(lines: &Vec<ReturnLine>) -> (r: ShipPlan)
        requires
            return_values_fit(lines@),
        ensures
            adjustment_views(r.stock_out@) == stock_moves(lines@, false, -1),
            sum(return_values(lines@)) > 0 ==> r.credit_amount == Some(
                sum(return_values(lines@)) as i64,
            ) && r.credit_lines.len() == lines.len() && forall|i: int|
                0 <= i < lines.len() ==> (#[trigger] r.credit_lines@[i]).description@
                    == lines@[i].description@ && r.credit_lines@[i].quantity == lines@[i].quantity
                    && r.credit_lines@[i].unit_price == lines@[i].unit_price,
            sum(return_values(lines@)) <= 0 ==> r.credit_amount is None && r.credit_lines.len()
                == 0,
    {
        let stock_out = stock_adjustments(lines, false, true);
        let total = returned_value(lines);
        let mut credit_lines: Vec<CreditLineDraft> = Vec::new();
        if total > 0 {
            let mut i: usize = 0;
            while i < lines.len()
                invariant
                    i <= lines.len(),
                    credit_lines.len() == i,
                    forall|k: int|
                        0 <= k < i ==> (#[trigger] credit_lines@[k]).description@
                            == lines@[k].description@ && credit_lines@[k].quantity
                            == lines@[k].quantity && credit_lines@[k].unit_price
                            == lines@[k].unit_price,
                decreases lines.len() - i,
            {
                credit_lines.push(
                    CreditLineDraft {
                        description: lines[i].description.clone(),
                        quantity: lines[i].quantity,
                        unit_price: lines[i].unit_price,
                    },
                );
                i = i + 1;
            }
        }
        let credit_amount = if total > 0 {
            Some(total)
        } else {
            None
        };
        ShipPlan { stock_out, credit_amount, credit_lines }
    }
}

} // verus!
