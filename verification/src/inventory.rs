//! Inventory: stock levels moved by adjustments, stocktakes and reorder requests.
use vstd::prelude::*;

use crate::dates::CalDate;
use crate::error::{refuse, status_refusal, Conflict, DbError};
use crate::ids::{parse_uuid, uuid_parse};
use crate::text::str_eq;
use crate::time_ops::{date_parse_ymd, ymd_format_date};

verus! {

/// A product's quantity on hand.
#[derive(Debug, Clone, Copy, PartialEq, Eq, Structural)]
pub struct StockLevel {
    pub product_id: u128,
    pub quantity_on_hand: i64,
}

/// A change of a product's quantity on hand.
#[derive(Debug, Clone, Copy, PartialEq, Eq, Structural)]
pub struct StockMove {
    pub product_id: u128,
    pub quantity: i64,
}

/// Total quantity that `moves` bring to product `pid`.
pub open spec fn moved_qty(moves: Seq<StockMove>, pid: u128) -> int
    decreases moves.len(),
{
    if moves.len() == 0 {
        0
    } else {
        moved_qty(moves.drop_last(), pid) + if moves.last().product_id == pid {
            moves.last().quantity as int
        } else {
            0
        }
    }
}

/// No quantity on hand overflows while applying the moves one by one.
pub open spec fn moves_fit(levels: Seq<StockLevel>, moves: Seq<StockMove>) -> bool {
    forall|i: int, k: int|
        0 <= i < levels.len() && 0 <= k <= moves.len() ==> i64::MIN <= (#[trigger] levels[i]).quantity_on_hand
            + #[trigger] moved_qty(moves.take(k), levels[i].product_id) <= i64::MAX
}

/// Inventory items.
pub struct InventoryRepo;

impl InventoryRepo {
    /// Applies stock moves: every product's quantity on hand grows by the sum of its
    /// moves; moves for products without a stock level change nothing.
    pub fn apply_moves(levels: &Vec<StockLevel>, moves: &Vec<StockMove>) -> (r: Vec<StockLevel>)
        requires
            moves_fit(levels@, moves@),
        ensures
            r.len() == levels.len(),
            forall|i: int|
                0 <= i < levels.len() ==> (#[trigger] r@[i]).product_id == levels@[i].product_id
                    && r@[i].quantity_on_hand == levels@[i].quantity_on_hand + moved_qty(
                    moves@,
                    levels@[i].product_id,
                ),
    {
        let mut out: Vec<StockLevel> = Vec::new();
        let mut i: usize = 0;
        while i < levels.len()
            invariant
                i <= levels.len(),
                moves_fit(levels@, moves@),
                out.len() == i,
                forall|a: int|
                    0 <= a < i ==> (#[trigger] out@[a]).product_id == levels@[a].product_id
                        && out@[a].quantity_on_hand == levels@[a].quantity_on_hand + moved_qty(
                        moves@,
                        levels@[a].product_id,
                    ),
            decreases levels.len() - i,
        {
            let l = levels[i];
            let mut q: i64 = l.quantity_on_hand;
            let mut k: usize = 0;
            while k < moves.len()
                invariant
                    k <= moves.len(),
                    i < levels.len(),
                    l == levels@[i as int],
                    moves_fit(levels@, moves@),
                    q == l.quantity_on_hand + moved_qty(moves@.take(k as int), l.product_id),
                decreases moves.len() - k,
            {
                proof {
                    assert(moves@.take(k + 1).drop_last() =~= moves@.take(k as int));
                    assert(i64::MIN <= levels@[i as int].quantity_on_hand + moved_qty(
                        moves@.take(k + 1),
                        levels@[i as int].product_id,
                    ) <= i64::MAX);
                }
                if moves[k].product_id == l.product_id {
                    q = q + moves[k].quantity;
                }
                k = k + 1;
            }
            proof {
                assert(moves@.take(moves.len() as int) =~= moves@);
            }
            out.push(StockLevel { product_id: l.product_id, quantity_on_hand: q });
            i = i + 1;
        }
        out
    }

    /// The unit cost recorded with a manual adjustment: the given cost, or zero.
    pub fn adjustment_unit_cost(unit_cost: Option<i64>) -> (r: i64)
        ensures
            r == match unit_cost {
                Some(c) => c,
                None => 0,
            },
    {
        match unit_cost {
            Some(c) => c,
            None => 0,
        }
    }
}

/// Moves applied one after the other add up: applying `a` then `b` is applying `a + b`.
pub proof fn lemma_moves_compose(a: Seq<StockMove>, b: Seq<StockMove>, pid: u128)
    ensures
        moved_qty(a + b, pid) == moved_qty(a, pid) + moved_qty(b, pid),
    decreases b.len(),
{
    if b.len() == 0 {
        assert(a + b =~= a);
    } else {
        assert((a + b).drop_last() =~= a + b.drop_last());
        lemma_moves_compose(a, b.drop_last(), pid);
    }
}

/// Batch lots.
pub struct InventoryLotRepo;

impl InventoryLotRepo {
    /// A lot's quantity cannot be negative.
    pub fn check_quantity(quantity: i64) -> (r: Result<(), DbError>)
        ensures
            quantity < 0 ==> r == Err::<(), DbError>(DbError::Conflict(Conflict::NegativeQuantity)),
            quantity >= 0 ==> r is Ok,
    {
        if quantity < 0 {
            Err(DbError::Conflict(Conflict::NegativeQuantity))
        } else {
            Ok(())
        }
    }
}

// ── stocktakes ─────────────────────────────────────────────────────────────────

/// A counted line of a stocktake: the product and the difference between count and
/// system quantity.
#[derive(Debug, Clone, Copy, PartialEq, Eq, Structural)]
pub struct StocktakeVariance {
    pub product_id: u128,
    pub variance: i64,
}

/// The adjustments a stocktake makes: one per line with a non-zero variance, in order.
pub open spec fn stocktake_moves(v: Seq<StocktakeVariance>) -> Seq<StockMove>
    decreases v.len(),
{
    if v.len() == 0 {
        Seq::empty()
    } else {
        let rest = stocktake_moves(v.drop_last());
        if v.last().variance != 0 {
            rest.push(StockMove { product_id: v.last().product_id, quantity: v.last().variance })
        } else {
            rest
        }
    }
}

/// Stock counts.
pub struct InventoryStocktakeRepo;

impl InventoryStocktakeRepo {
    /// Posting a submitted stocktake adjusts stock by each non-zero variance; a stocktake
    /// in any other state (or missing) is refused.
    pub fn plan_post(status: Option<&str>, lines: &Vec<StocktakeVariance>) -> (r: Result<
        Vec<StockMove>,
        DbError,
    >)
        ensures
            (match status {
                Some(s) => s@ == "submitted"@,
                None => false,
            }) ==> (r matches Ok(m) && m@ == stocktake_moves(lines@)),
            !(match status {
                Some(s) => s@ == "submitted"@,
                None => false,
            }) ==> (r matches Err(e) && status_refusal(
                e,
                "stocktake not found or not in submitted state"@,
            )),
    {
        let ok = match status {
            Some(s) => str_eq(s, "submitted"),
            None => false,
        };
        if !ok {
            return Err(refuse("stocktake not found or not in submitted state"));
        }
        let mut out: Vec<StockMove> = Vec::new();
        let mut i: usize = 0;
        while i < lines.len()
            invariant
                i <= lines.len(),
                out@ == stocktake_moves(lines@.take(i as int)),
            decreases lines.len() - i,
        {
            proof {
                assert(lines@.take(i + 1).drop_last() =~= lines@.take(i as int));
            }
            if lines[i].variance != 0 {
                out.push(StockMove { product_id: lines[i].product_id, quantity: lines[i].variance });
            }
            i = i + 1;
        }
        proof {
            assert(lines@.take(lines.len() as int) =~= lines@);
        }
        Ok(out)
    }

    /// Stocktakes are submitted only while in draft; posting follows submission.
    pub fn check_draft(status: Option<&str>) -> (r: Result<(), DbError>)
        ensures
            r is Ok <==> (match status {
                Some(s) => s@ == "draft"@,
                None => false,
            }),
            r matches Err(e) ==> status_refusal(e, "stocktake not found or not in draft state"@),
    {
        Self::check_in_draft(status, "stocktake not found or not in draft state")
    }

    /// Counts are entered on a stocktake's lines only while it is in draft.
    pub fn check_line_update(status: Option<&str>) -> (r: Result<(), DbError>)
        ensures
            r is Ok <==> (match status {
                Some(s) => s@ == "draft"@,
                None => false,
            }),
            r matches Err(e) ==> status_refusal(
                e,
                "line not found or stocktake is not in draft state"@,
            ),
    {
        Self::check_in_draft(status, "line not found or stocktake is not in draft state")
    }

    fn check_in_draft(status: Option<&str>, refusal: &str) -> (r: Result<(), DbError>)
        ensures
            r is Ok <==> (match status {
                Some(s) => s@ == "draft"@,
                None => false,
            }),
            r matches Err(e) ==> status_refusal(e, refusal@),
    {
        match status {
            Some(s) => if str_eq(s, "draft") {
                Ok(())
            } else {
                Err(refuse(refusal))
            },
            None => Err(refuse(refusal)),
        }
    }
}

/// After posting, every product's stock equals its count: the quantity on hand moves by
/// the sum of the product's non-zero variances, which is the sum of all its variances.
pub proof fn lemma_stocktake_moves_total(v: Seq<StocktakeVariance>, pid: u128)
    ensures
        moved_qty(stocktake_moves(v), pid) == stocktake_variance_total(v, pid),
    decreases v.len(),
{
    if v.len() > 0 {
        lemma_stocktake_moves_total(v.drop_last(), pid);
        let rest = stocktake_moves(v.drop_last());
        if v.last().variance != 0 {
            assert(rest.push(StockMove { product_id: v.last().product_id, quantity: v.last().variance }).drop_last() =~= rest);
        }
    }
}

/// Sum of the variances counted for product `pid`.
pub open spec fn stocktake_variance_total(v: Seq<StocktakeVariance>, pid: u128) -> int
    decreases v.len(),
{
    if v.len() == 0 {
        0
    } else {
        stocktake_variance_total(v.drop_last(), pid) + if v.last().product_id == pid {
            v.last().variance as int
        } else {
            0
        }
    }
}

// ── reorder requests ───────────────────────────────────────────────────────────

/// The quantity a reorder request asks for: the requested quantity when positive, else
/// the item's reorder quantity when none was given and that is positive.
pub open spec fn reorder_qty_result(requested: Option<i64>, fallback: Option<i64>) -> Result<
    i64,
    DbError,
> {
    match requested {
        Some(q) => if q > 0 {
            Ok(q)
        } else {
            Err(DbError::Conflict(Conflict::NonPositiveQuantity))
        },
        None => {
            let q = match fallback {
                Some(f) => f,
                None => 0,
            };
            if q > 0 {
                Ok(q)
            } else {
                Err(DbError::Conflict(Conflict::NoReorderQuantity))
            }
        },
    }
}

/// What submitting a reorder request orders: from which supplier, for which date.
pub struct ReorderSubmission {
    pub supplier_id: u128,
    pub expected_date: Option<CalDate>,
}

/// An inventory item's stock and reorder settings.
#[derive(Debug, Clone, Copy, PartialEq, Eq, Structural)]
pub struct ReorderLevel {
    pub product_id: u128,
    pub quantity_on_hand: i64,
    pub reorder_point: i64,
    pub reorder_qty: i64,
}

/// An item needs a reorder request: it has a reorder quantity, its stock is below its
/// reorder point, and no request for its product is pending.
pub open spec fn needs_reorder(s: ReorderLevel, pending: Seq<u128>) -> bool {
    s.reorder_qty > 0 && s.quantity_on_hand < s.reorder_point && !pending.contains(s.product_id)
}

/// Every request in `raised` is for an item below its reorder point, with that item's
/// product and reorder quantity: none comes from an item at or above its reorder point.
pub open spec fn raised_below_point(items: Seq<ReorderLevel>, raised: Seq<(u128, i64)>) -> bool {
    forall|k: int| 0 <= k < raised.len() ==> #[trigger] raised_from_item_below(items, raised[k])
}

/// `x` is the product and reorder quantity of an item below its reorder point.
pub open spec fn raised_from_item_below(items: Seq<ReorderLevel>, x: (u128, i64)) -> bool {
    exists|i: int|
        0 <= i < items.len() && items[i].quantity_on_hand < items[i].reorder_point && x == (
            #[trigger] items[i].product_id,
            items[i].reorder_qty,
        )
}

/// Every request raised comes from an item below its reorder point, with that item's
/// product and reorder quantity.
pub proof fn lemma_reorders_below_point(items: Seq<ReorderLevel>, pending: Seq<u128>)
    ensures
        raised_below_point(items, reorders_of(items, pending)),
    decreases items.len(),
{
    if items.len() > 0 {
        let d = items.drop_last();
        lemma_reorders_below_point(d, pending);
        let rest = reorders_of(d, pending);
        let all = reorders_of(items, pending);
        assert forall|k: int| 0 <= k < all.len() implies #[trigger] raised_from_item_below(
            items,
            all[k],
        ) by {
            if k < rest.len() {
                assert(rest[k] == all[k]);
                assert(raised_from_item_below(d, rest[k]));
                let i = choose|i: int|
                    0 <= i < d.len() && d[i].quantity_on_hand < d[i].reorder_point && rest[k] == (
                        #[trigger] d[i].product_id,
                        d[i].reorder_qty,
                    );
                assert(items[i] == d[i]);
            } else {
                let i = items.len() - 1;
                assert(items[i] == items.last());
                assert(all[k] == (items[i].product_id, items[i].reorder_qty));
            }
        }
        assert(raised_below_point(items, all));
    } else {
        assert(reorders_of(items, pending).len() == 0);
    }
}

/// The requests to raise, in the items' order: each item needing one, with its reorder
/// quantity.
pub open spec fn reorders_of(items: Seq<ReorderLevel>, pending: Seq<u128>) -> Seq<(u128, i64)>
    decreases items.len(),
{
    if items.len() == 0 {
        Seq::empty()
    } else {
        let rest = reorders_of(items.drop_last(), pending);
        let s = items.last();
        if needs_reorder(s, pending) {
            rest.push((s.product_id, s.reorder_qty))
        } else {
            rest
        }
    }
}

/// Reorder requests.
pub struct InventoryReorderRequestRepo;

impl InventoryReorderRequestRepo {
    /// The reorder requests to raise: for every item below its reorder point that has a
    /// reorder quantity and no pending request, its product and reorder quantity. An item at
    /// or above its reorder point gets none.
    pub fn reorder_candidates(items: &Vec<ReorderLevel>, pending: &Vec<u128>) -> (r: Vec<(u128, i64)>)
        ensures
            r@ == reorders_of(items@, pending@),
            raised_below_point(items@, r@),
    {
        let mut out: Vec<(u128, i64)> = Vec::new();
        let mut i: usize = 0;
        while i < items.len()
            invariant
                i <= items.len(),
                out@ == reorders_of(items@.take(i as int), pending@),
            decreases items.len() - i,
        {
            let s = items[i];
            proof {
                assert(items@.take(i + 1).drop_last() =~= items@.take(i as int));
            }
            let mut is_pending = false;
            let mut j: usize = 0;
            while j < pending.len()
                invariant
                    j <= pending.len(),
                    is_pending <==> exists|k: int| 0 <= k < j && pending@[k] == s.product_id,
                decreases pending.len() - j,
            {
                if pending[j] == s.product_id {
                    is_pending = true;
                }
                j = j + 1;
            }
            if s.reorder_qty > 0 && s.quantity_on_hand < s.reorder_point && !is_pending {
                out.push((s.product_id, s.reorder_qty));
            }
            i = i + 1;
        }
        proof {
            assert(items@.take(items.len() as int) =~= items@);
            lemma_reorders_below_point(items@, pending@);
            assert(raised_below_point(items@, out@));
        }
        out
    }

    /// The quantity of a new request (see [`reorder_qty_result`]).
    pub fn requested_quantity(requested: Option<i64>, fallback: Option<i64>) -> (r: Result<
        i64,
        DbError,
    >)
        ensures
            r == reorder_qty_result(requested, fallback),
    {
        match requested {
            Some(q) => if q > 0 {
                Ok(q)
            } else {
                Err(DbError::Conflict(Conflict::NonPositiveQuantity))
            },
            None => {
                let q = match fallback {
                    Some(f) => f,
                    None => 0,
                };
                if q > 0 {
                    Ok(q)
                } else {
                    Err(DbError::Conflict(Conflict::NoReorderQuantity))
                }
            },
        }
    }

    /// Only pending requests can be cancelled.
    pub fn check_cancel(status: &str) -> (r: Result<(), DbError>)
        ensures
            r is Ok <==> status@ == "pending"@,
            r matches Err(e) ==> status_refusal(e, "only pending requests can be cancelled"@),
    {
        if str_eq(status, "pending") {
            Ok(())
        } else {
            Err(refuse("only pending requests can be cancelled"))
        }
    }

    /// Submitting turns a pending request with a supplier into a purchase order; the
    /// delivery date, when given, must be `YYYY-MM-DD`.
    pub fn plan_submit(status: &str, supplier_id: Option<&str>, delivery_date: Option<&str>) -> (r:
        Result<ReorderSubmission, DbError>)
        ensures
            status@ != "pending"@ ==> (r matches Err(e) && status_refusal(
                e,
                "only pending requests can be submitted"@,
            )),
            status@ == "pending"@ && supplier_id is None ==> r == Err::<
                ReorderSubmission,
                DbError,
            >(DbError::Conflict(Conflict::SupplierRequired)),
            status@ == "pending"@ && supplier_id is Some ==> (r is Ok <==> (uuid_parse(
                supplier_id->0@,
            ) is Some && match delivery_date {
                Some(d) => ymd_format_date(d@) is Some,
                None => true,
            })),
            status@ == "pending"@ && supplier_id is Some && uuid_parse(supplier_id->0@) is None
                ==> (r matches Err(e) && e matches DbError::Conflict(Conflict::InvalidUuid(x)) && x@
                == supplier_id->0@),
            status@ == "pending"@ && supplier_id is Some && uuid_parse(supplier_id->0@) is Some
                && delivery_date is Some && ymd_format_date(delivery_date->0@) is None ==> (
            r matches Err(e) && e matches DbError::Conflict(Conflict::InvalidDeliveryDate(x))
                && x@ == delivery_date->0@),
            r matches Ok(s) ==> (Some(s.supplier_id) == uuid_parse(supplier_id->0@) && match delivery_date {
                Some(d) => s.expected_date matches Some(x) && ymd_format_date(d@) == Some(
                    (x.year as int, x.month as int, x.day as int),
                ),
                None => s.expected_date is None,
            }),
    {
        if !str_eq(status, "pending") {
            return Err(refuse("only pending requests can be submitted"));
        }
        let sup = match supplier_id {
            Some(s) => s,
            None => return Err(DbError::Conflict(Conflict::SupplierRequired)),
        };
        let supplier = parse_uuid(sup)?;
        let expected_date = match delivery_date {
            Some(d) => match date_parse_ymd(d) {
                Some(x) => Some(x),
                None => return Err(
                    DbError::Conflict(Conflict::InvalidDeliveryDate(String::from_str(d))),
                ),
            },
            None => None,
        };
        Ok(ReorderSubmission { supplier_id: supplier, expected_date })
    }
}

} // verus!
