//! Purchasing: requisitions, purchase orders and goods receipts, with the quantities
//! received against order lines and the order status they imply.
use vstd::prelude::*;

use crate::error::{
    check_transition,
    refuse,
    refuse_status,
    status_refusal,
    status_view,
    transition_checked,
    Conflict,
    DbError,
};
use crate::ids::{parse_uuid, uuid_parse};
use crate::seqs::{prefix_sums_fit, sum};
use crate::text::{prefixed_zero_padded, str_eq, zero_padded};

verus! {

/// An order line's ordered and received quantities.
#[derive(Debug, Clone, Copy, PartialEq, Eq, Structural)]
pub struct PoLineQty {
    pub id: u128,
    pub quantity: i64,
    pub quantity_received: i64,
}

/// A quantity received against an order line.
#[derive(Debug, Clone, Copy, PartialEq, Eq, Structural)]
pub struct Receipt {
    pub line_id: u128,
    pub quantity: i64,
}

/// Receiving `r` on line `l`: the received quantity grows, capped at the ordered quantity.
pub open spec fn receive_one(l: PoLineQty, r: Receipt) -> PoLineQty {
    if l.id == r.line_id {
        PoLineQty {
            quantity_received: if l.quantity < l.quantity_received + r.quantity {
                l.quantity
            } else {
                (l.quantity_received + r.quantity) as i64
            },
            ..l
        }
    } else {
        l
    }
}

/// The order lines after receiving `r`.
pub open spec fn receive_all(lines: Seq<PoLineQty>, r: Receipt) -> Seq<PoLineQty> {
    lines.map_values(|l: PoLineQty| receive_one(l, r))
}

/// The order lines after receiving each of `rs` in turn.
pub open spec fn receive_seq(lines: Seq<PoLineQty>, rs: Seq<Receipt>) -> Seq<PoLineQty>
    decreases rs.len(),
{
    if rs.len() == 0 {
        lines
    } else {
        receive_all(receive_seq(lines, rs.drop_last()), rs.last())
    }
}

proof fn lemma_receive_seq_len(lines: Seq<PoLineQty>, rs: Seq<Receipt>)
    ensures
        receive_seq(lines, rs).len() == lines.len(),
    decreases rs.len(),
{
    if rs.len() > 0 {
        lemma_receive_seq_len(lines, rs.drop_last());
    }
}

/// No received quantity overflows while receiving.
pub open spec fn receipts_fit(lines: Seq<PoLineQty>, rs: Seq<Receipt>) -> bool {
    forall|k: int, i: int|
        0 <= k < rs.len() && 0 <= i < lines.len() ==> i64::MIN <= (#[trigger] receive_seq(
            lines,
            rs.take(k),
        )[i]).quantity_received + (#[trigger] rs[k]).quantity <= i64::MAX
}

/// Ordered quantities.
pub open spec fn ordered(lines: Seq<PoLineQty>) -> Seq<int> {
    lines.map_values(|l: PoLineQty| l.quantity as int)
}

/// Received quantities.
pub open spec fn received(lines: Seq<PoLineQty>) -> Seq<int> {
    lines.map_values(|l: PoLineQty| l.quantity_received as int)
}

/// Receiving status of a purchase order.
#[derive(Debug, Clone, Copy, PartialEq, Eq, Structural)]
pub enum ReceivingStatus {
    Sent,
    PartiallyReceived,
    Received,
}

/// The status implied by the totals ordered and received.
pub open spec fn receiving_status(total: int, got: int) -> ReceivingStatus {
    if got >= total {
        ReceivingStatus::Received
    } else if got > 0 {
        ReceivingStatus::PartiallyReceived
    } else {
        ReceivingStatus::Sent
    }
}

/// Purchase orders.
pub struct PurchaseOrderRepo;

impl PurchaseOrderRepo {
    /// The order number for counter value `n`: `PO-` and at least five digits.
    pub fn po_number(n: i64) -> (r: String)
        ensures
            r@ == "PO-"@ + zero_padded(n as int, 5),
    {
        prefixed_zero_padded("PO-", n, 5)
    }

    /// Only draft orders can be approved.
    pub fn check_approve(current: Option<&str>) -> (r: Result<(), DbError>)
        ensures
            transition_checked(
                status_view(current),
                "draft"@,
                "PO cannot be approved from status '"@,
                r,
            ),
    {
        check_transition(current, "draft", "PO cannot be approved from status '")
    }

    /// Voided and billed orders cannot receive goods.
    pub fn check_receive(status: &str) -> (r: Result<(), DbError>)
        ensures
            r is Ok <==> !(status@ == "voided"@ || status@ == "billed"@),
            r matches Err(e) ==> status_refusal(e, "PO cannot receive in current status"@),
    {
        if str_eq(status, "voided") || str_eq(status, "billed") {
            Err(refuse("PO cannot receive in current status"))
        } else {
            Ok(())
        }
    }

    /// Applies receipts in order to the order's lines.
    pub fn apply_receipts(lines: &Vec<PoLineQty>, receipts: &Vec<Receipt>) -> (r: Vec<PoLineQty>)
        requires
            receipts_fit(lines@, receipts@),
        ensures
            r@ == receive_seq(lines@, receipts@),
    {
        let mut cur: Vec<PoLineQty> = lines.clone();
        let mut k: usize = 0;
        proof {
            assert(cur@ =~= lines@);
            assert(receipts@.take(0) =~= Seq::<Receipt>::empty());
        }
        while k < receipts.len()
            invariant
                k <= receipts.len(),
                receipts_fit(lines@, receipts@),
                cur@ == receive_seq(lines@, receipts@.take(k as int)),
            decreases receipts.len() - k,
        {
            let rc = receipts[k];
            let ghost before = cur@;
            let mut next: Vec<PoLineQty> = Vec::new();
            let mut i: usize = 0;
            while i < cur.len()
                invariant
                    i <= cur.len(),
                    k < receipts.len(),
                    rc == receipts@[k as int],
                    before == cur@,
                    before == receive_seq(lines@, receipts@.take(k as int)),
                    receipts_fit(lines@, receipts@),
                    next@ == receive_all(before.take(i as int), rc),
                decreases cur.len() - i,
            {
                let l = cur[i];
                proof {
                    lemma_receive_seq_len(lines@, receipts@.take(k as int));
                    assert(i64::MIN <= receive_seq(lines@, receipts@.take(k as int))[i as int].quantity_received
                        + receipts@[k as int].quantity <= i64::MAX);
                }
                let nl = if l.id == rc.line_id {
                    let sum = l.quantity_received + rc.quantity;
                    PoLineQty {
                        id: l.id,
                        quantity: l.quantity,
                        quantity_received: if l.quantity < sum {
                            l.quantity
                        } else {
                            sum
                        },
                    }
                } else {
                    l
                };
                next.push(nl);
                proof {
                    assert(next@ =~= receive_all(before.take(i + 1), rc));
                }
                i = i + 1;
            }
            proof {
                assert(before.take(before.len() as int) =~= before);
                assert(receipts@.take(k + 1).drop_last() =~= receipts@.take(k as int));
                assert(receipts@.take(k + 1).last() == rc);
            }
            cur = next;
            k = k + 1;
        }
        proof {
            assert(receipts@.take(receipts.len() as int) =~= receipts@);
        }
        cur
    }

    /// The status after receiving: received once everything ordered has arrived,
    /// partially received when something has, otherwise sent. An order without lines has
    /// no totals (`None`).
    pub fn receiving_status_of(lines: &Vec<PoLineQty>) -> (r: Option<ReceivingStatus>)
        requires
            prefix_sums_fit(ordered(lines@)),
            prefix_sums_fit(received(lines@)),
        ensures
            lines.len() == 0 ==> r is None,
            lines.len() > 0 ==> r == Some(
                receiving_status(sum(ordered(lines@)), sum(received(lines@))),
            ),
    {
        if lines.len() == 0 {
            return None;
        }
        let mut total: i64 = 0;
        let mut got: i64 = 0;
        let mut i: usize = 0;
        while i < lines.len()
            invariant
                i <= lines.len(),
                prefix_sums_fit(ordered(lines@)),
                prefix_sums_fit(received(lines@)),
                total == sum(ordered(lines@).take(i as int)),
                got == sum(received(lines@).take(i as int)),
            decreases lines.len() - i,
        {
            proof {
                crate::seqs::lemma_sum_take_succ(ordered(lines@), i as int);
                crate::seqs::lemma_sum_take_succ(received(lines@), i as int);
                assert(i64::MIN <= sum(ordered(lines@).take(i + 1)) <= i64::MAX);
                assert(i64::MIN <= sum(received(lines@).take(i + 1)) <= i64::MAX);
            }
            total = total + lines[i].quantity;
            got = got + lines[i].quantity_received;
            i = i + 1;
        }
        proof {
            crate::seqs::lemma_take_full(ordered(lines@));
            crate::seqs::lemma_take_full(received(lines@));
        }
        if got >= total {
            Some(ReceivingStatus::Received)
        } else if got > 0 {
            Some(ReceivingStatus::PartiallyReceived)
        } else {
            Some(ReceivingStatus::Sent)
        }
    }
}

/// Receiving never takes a line past its ordered quantity: a line that started within
/// its order stays within it after any receipts of non-negative quantities.
pub proof fn lemma_receipts_capped(lines: Seq<PoLineQty>, rs: Seq<Receipt>, i: int)
    requires
        0 <= i < lines.len(),
        lines[i].quantity_received <= lines[i].quantity,
        forall|k: int| 0 <= k < rs.len() ==> (#[trigger] rs[k]).quantity >= 0,
    ensures
        receive_seq(lines, rs)[i].quantity_received <= receive_seq(lines, rs)[i].quantity,
        receive_seq(lines, rs)[i].quantity == lines[i].quantity,
        receive_seq(lines, rs)[i].id == lines[i].id,
        receive_seq(lines, rs).len() == lines.len(),
    decreases rs.len(),
{
    if rs.len() > 0 {
        lemma_receipts_capped(lines, rs.drop_last(), i);
    }
}

// ── goods receipts ─────────────────────────────────────────────────────────────

/// A line of a goods receipt.
#[derive(Debug, Clone, Copy, PartialEq, Eq, Structural)]
pub struct GrnLine {
    pub po_line_id: u128,
    pub item_id: Option<u128>,
    pub lot_id: Option<u128>,
    pub quantity_received: i64,
    pub unit_cost: i64,
}

/// A receipt into inventory made by posting a goods receipt.
#[derive(Debug, Clone, Copy, PartialEq, Eq, Structural)]
pub struct StockReceipt {
    pub item_id: u128,
    pub lot_id: Option<u128>,
    pub quantity: i64,
    pub unit_cost: i64,
}

/// Quantity a goods receipt adds to order line `id`.
pub open spec fn grn_qty_for(g: Seq<GrnLine>, id: u128) -> int
    decreases g.len(),
{
    if g.len() == 0 {
        0
    } else {
        grn_qty_for(g.drop_last(), id) + if g.last().po_line_id == id {
            g.last().quantity_received as int
        } else {
            0
        }
    }
}

/// The inventory receipts of the goods-receipt lines that name an item, in order.
pub open spec fn grn_stock(g: Seq<GrnLine>) -> Seq<StockReceipt>
    decreases g.len(),
{
    if g.len() == 0 {
        Seq::empty()
    } else {
        let rest = grn_stock(g.drop_last());
        let l = g.last();
        match l.item_id {
            Some(it) => rest.push(
                StockReceipt {
                    item_id: it,
                    lot_id: l.lot_id,
                    quantity: l.quantity_received,
                    unit_cost: l.unit_cost,
                },
            ),
            None => rest,
        }
    }
}

/// The order line after a goods receipt is posted (no cap: the receipt is booked whole).
pub open spec fn posted_line(l: PoLineQty, g: Seq<GrnLine>) -> PoLineQty {
    PoLineQty { quantity_received: (l.quantity_received + grn_qty_for(g, l.id)) as i64, ..l }
}

/// What posting a goods receipt does.
pub struct GrnPostPlan {
    pub po_lines: Vec<PoLineQty>,
    pub stock: Vec<StockReceipt>,
    /// The order becomes `received`.
    pub order_received: bool,
}

/// Goods receipt notes.
pub struct GrnRepo;

/// A receipt line's order line is a UUID that names a line of the order.
pub open spec fn on_order(id: Seq<char>, order_lines: Seq<u128>) -> bool {
    uuid_parse(id) matches Some(u) && order_lines.contains(u)
}

/// The refusal of a receipt line whose order line is not on the order.
pub open spec fn off_order_refusal(id: Seq<char>) -> Seq<char> {
    "po_line_id "@ + id + " does not belong to this purchase order"@
}

impl GrnRepo {
    /// Checks, line by line, that each receipt line names a line of the order; the first
    /// that is not a UUID is refused as such, the first that is not on the order is refused
    /// with its id. On success, the order lines named, in the receipt's order.
    pub fn check_lines_on_order(line_ids: &Vec<String>, order_lines: &Vec<u128>) -> (r: Result<
        Vec<u128>,
        DbError,
    >)
        ensures
            r is Ok <==> forall|i: int|
                0 <= i < line_ids.len() ==> on_order((#[trigger] line_ids@[i])@, order_lines@),
            r matches Ok(v) ==> v.len() == line_ids.len() && forall|i: int|
                0 <= i < v.len() ==> uuid_parse(line_ids@[i]@) == Some(#[trigger] v@[i]),
            r matches Err(e) ==> exists|k: int|
                0 <= k < line_ids.len() && (forall|i: int|
                    0 <= i < k ==> on_order((#[trigger] line_ids@[i])@, order_lines@)) && !on_order(
                    line_ids@[k]@,
                    order_lines@,
                ) && match uuid_parse(line_ids@[k]@) {
                    None => e matches DbError::Conflict(Conflict::InvalidUuid(x)) && x@
                        == line_ids@[k]@,
                    Some(_) => status_refusal(e, off_order_refusal(line_ids@[k]@)),
                },
    {
        let mut out: Vec<u128> = Vec::new();
        let mut i: usize = 0;
        while i < line_ids.len()
            invariant
                i <= line_ids.len(),
                out.len() == i,
                forall|k: int| 0 <= k < i ==> on_order((#[trigger] line_ids@[k])@, order_lines@),
                forall|k: int| 0 <= k < i ==> uuid_parse(line_ids@[k]@) == Some(#[trigger] out@[k]),
            decreases line_ids.len() - i,
        {
            let u = match parse_uuid(line_ids[i].as_str()) {
                Ok(u) => u,
                Err(e) => {
                    assert(!on_order(line_ids@[i as int]@, order_lines@));
                    return Err(e);
                },
            };
            let mut found = false;
            let mut j: usize = 0;
            while j < order_lines.len()
                invariant
                    j <= order_lines.len(),
                    found <==> exists|m: int| 0 <= m < j && order_lines@[m] == u,
                decreases order_lines.len() - j,
            {
                if order_lines[j] == u {
                    found = true;
                }
                j = j + 1;
            }
            if !found {
                return Err(
                    refuse_status(
                        "po_line_id ",
                        line_ids[i].as_str(),
                        " does not belong to this purchase order",
                    ),
                );
            }
            out.push(u);
            i = i + 1;
        }
        Ok(out)
    }

    /// Plans posting a goods receipt against its order: each order line's received
    /// quantity grows by what the receipt lines bring it, lines naming an item go into
    /// inventory, and the order is marked received when it is not voided and no line is
    /// left short. A receipt already posted is refused.
    pub fn plan_post(
        grn_status: &str,
        grn_lines: &Vec<GrnLine>,
        po_lines: &Vec<PoLineQty>,
        po_status: &str,
    ) -> (r: Result<GrnPostPlan, DbError>)
        requires
            forall|i: int|
                0 <= i < po_lines.len() ==> i64::MIN <= (#[trigger] po_lines[i]).quantity_received
                    + grn_qty_for(grn_lines@, po_lines[i].id) <= i64::MAX,
            forall|i: int, j: int|
                0 <= i < po_lines.len() && 0 <= j <= grn_lines.len() ==> i64::MIN
                    <= #[trigger] grn_qty_for(grn_lines@.take(j), (#[trigger] po_lines[i]).id)
                    <= i64::MAX,
        ensures
            grn_status@ == "posted"@ ==> r == Err::<GrnPostPlan, DbError>(
                DbError::Conflict(Conflict::AlreadyPosted),
            ),
            grn_status@ != "posted"@ ==> (r matches Ok(p) && {
                &&& p.po_lines@ == po_lines@.map_values(|l: PoLineQty| posted_line(l, grn_lines@))
                &&& p.stock@ == grn_stock(grn_lines@)
                &&& p.order_received == (po_status@ != "voided"@ && forall|i: int|
                    0 <= i < p.po_lines.len() ==> (#[trigger] p.po_lines@[i]).quantity_received
                        >= p.po_lines@[i].quantity)
            }),
    {
        if str_eq(grn_status, "posted") {
            return Err(DbError::Conflict(Conflict::AlreadyPosted));
        }
        let ghost g = grn_lines@;
        let mut out: Vec<PoLineQty> = Vec::new();
        let mut all_received = true;
        let mut i: usize = 0;
        while i < po_lines.len()
            invariant
                i <= po_lines.len(),
                g == grn_lines@,
                forall|a: int|
                    0 <= a < po_lines.len() ==> i64::MIN <= (#[trigger] po_lines[a]).quantity_received
                        + grn_qty_for(g, po_lines[a].id) <= i64::MAX,
                forall|a: int, b: int|
                    0 <= a < po_lines.len() && 0 <= b <= grn_lines.len() ==> i64::MIN
                        <= #[trigger] grn_qty_for(g.take(b), (#[trigger] po_lines[a]).id)
                        <= i64::MAX,
                out@ == po_lines@.take(i as int).map_values(|l: PoLineQty| posted_line(l, g)),
                all_received == forall|a: int|
                    0 <= a < i ==> (#[trigger] out@[a]).quantity_received >= out@[a].quantity,
            decreases po_lines.len() - i,
        {
            let l = po_lines[i];
            let mut add: i64 = 0;
            let mut j: usize = 0;
            while j < grn_lines.len()
                invariant
                    j <= grn_lines.len(),
                    g == grn_lines@,
                    i < po_lines.len(),
                    l == po_lines@[i as int],
                    forall|b: int|
                        0 <= b <= grn_lines.len() ==> i64::MIN <= #[trigger] grn_qty_for(
                            g.take(b),
                            l.id,
                        ) <= i64::MAX,
                    add == grn_qty_for(g.take(j as int), l.id),
                decreases grn_lines.len() - j,
            {
                proof {
                    assert(g.take(j + 1).drop_last() =~= g.take(j as int));
                    assert(i64::MIN <= grn_qty_for(g.take(j + 1), l.id) <= i64::MAX);
                }
                if grn_lines[j].po_line_id == l.id {
                    add = add + grn_lines[j].quantity_received;
                }
                j = j + 1;
            }
            proof {
                assert(g.take(grn_lines.len() as int) =~= g);
            }
            let nl = PoLineQty {
                id: l.id,
                quantity: l.quantity,
                quantity_received: l.quantity_received + add,
            };
            let ghost prev = all_received;
            let ghost before = out@;
            out.push(nl);
            if nl.quantity_received < nl.quantity {
                all_received = false;
            }
            proof {
                assert(out@ =~= po_lines@.take(i + 1).map_values(|x: PoLineQty| posted_line(x, g)));
                if !prev {
                    let a = choose|a: int|
                        0 <= a < i && !((#[trigger] before[a]).quantity_received >= before[a].quantity);
                    assert(out@[a] == before[a]);
                }
                assert(out@[i as int] == nl);
            }
            i = i + 1;
        }
        proof {
            assert(po_lines@.take(po_lines.len() as int) =~= po_lines@);
        }
        let mut stock: Vec<StockReceipt> = Vec::new();
        let mut j: usize = 0;
        while j < grn_lines.len()
            invariant
                j <= grn_lines.len(),
                g == grn_lines@,
                stock@ == grn_stock(g.take(j as int)),
            decreases grn_lines.len() - j,
        {
            proof {
                assert(g.take(j + 1).drop_last() =~= g.take(j as int));
            }
            let gl = grn_lines[j];
            match gl.item_id {
                Some(it) => {
                    stock.push(
                        StockReceipt {
                            item_id: it,
                            lot_id: gl.lot_id,
                            quantity: gl.quantity_received,
                            unit_cost: gl.unit_cost,
                        },
                    );
                },
                None => {},
            }
            j = j + 1;
        }
        proof {
            assert(g.take(grn_lines.len() as int) =~= g);
        }
        proof {
            assert(out@ =~= po_lines@.map_values(|l: PoLineQty| posted_line(l, grn_lines@)));
            assert(stock@ == grn_stock(grn_lines@));
            assert(out.len() == po_lines.len());
        }
        let voided = str_eq(po_status, "voided");
        let plan = GrnPostPlan { po_lines: out, stock, order_received: !voided && all_received };
        assert(plan.po_lines@ == po_lines@.map_values(|l: PoLineQty| posted_line(l, grn_lines@)));
        assert(plan.stock@ == grn_stock(grn_lines@));
        assert(plan.order_received == (po_status@ != "voided"@ && forall|a: int|
            0 <= a < plan.po_lines.len() ==> (#[trigger] plan.po_lines@[a]).quantity_received
                >= plan.po_lines@[a].quantity));
        Ok(plan)
    }
}

// ── requisitions ───────────────────────────────────────────────────────────────

/// Line totals of a requisition: quantity × unit price.
pub open spec fn requisition_totals(lines: Seq<(i64, i64)>) -> Seq<int> {
    lines.map_values(|l: (i64, i64)| l.0 * l.1)
}

/// Purchase requisitions.
pub struct PurchaseRequisitionRepo;

impl PurchaseRequisitionRepo {
    /// A requisition's total: the sum of quantity × unit price over its lines.
    pub fn total(lines: &Vec<(i64, i64)>) -> (r: i64)
        requires
            forall|i: int|
                0 <= i < lines.len() ==> i64::MIN <= (#[trigger] lines[i]).0 * lines[i].1
                    <= i64::MAX,
            prefix_sums_fit(requisition_totals(lines@)),
        ensures
            r == sum(requisition_totals(lines@)),
    {
        let mut t: i64 = 0;
        let mut i: usize = 0;
        while i < lines.len()
            invariant
                i <= lines.len(),
                forall|k: int|
                    0 <= k < lines.len() ==> i64::MIN <= (#[trigger] lines[k]).0 * lines[k].1
                        <= i64::MAX,
                prefix_sums_fit(requisition_totals(lines@)),
                t == sum(requisition_totals(lines@).take(i as int)),
            decreases lines.len() - i,
        {
            proof {
                crate::seqs::lemma_sum_take_succ(requisition_totals(lines@), i as int);
                assert(i64::MIN <= sum(requisition_totals(lines@).take(i + 1)) <= i64::MAX);
            }
            let (q, p) = lines[i];
            t = t + q * p;
            i = i + 1;
        }
        proof {
            crate::seqs::lemma_take_full(requisition_totals(lines@));
        }
        t
    }

    /// The requisition workflow: `draft` → `submitted` → `approved` (or `rejected`) →
    /// `converted`; each step starts from one status, and anything else is refused.
    pub fn check_step(status: &str, required: &str) -> (r: Result<(), DbError>)
        ensures
            r is Ok <==> status@ == required@,
            r matches Err(e) ==> status_refusal(
                e,
                "requisition is not in "@ + required@ + " status"@,
            ),
    {
        if str_eq(status, required) {
            Ok(())
        } else {
            Err(refuse_status("requisition is not in ", required, " status"))
        }
    }
}

} // verus!
