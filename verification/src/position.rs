//! Positions reported by the exchange and their aggregation against one
//! order id.

use vstd::prelude::*;

verus! {

/// One position row as the exchange reports it.
#[derive(Clone, Debug)]
pub struct Position {
    pub symbol: String,
    pub order_id: String,
    pub side: String,
    pub qty: i64,
    pub price: i64,
    pub pnl: i64,
}

/// Sum of the quantities of the rows whose order id is `id`.
pub open spec fn agg_qty(id: Seq<char>, ps: Seq<Position>) -> int
    decreases ps.len(),
{
    if ps.len() == 0 {
        0
    } else {
        agg_qty(id, ps.drop_last()) + if ps.last().order_id@ == id {
            ps.last().qty as int
        } else {
            0
        }
    }
}

/// Sum of the prices of the rows whose order id is `id`.
///
/// Summing prices across rows has no obvious financial meaning (a weighted
/// average would); the behaviour is kept as the exchange-facing flow always
/// had it, pending clarification, and nothing in the engine reads the sum.
pub open spec fn agg_price(id: Seq<char>, ps: Seq<Position>) -> int
    decreases ps.len(),
{
    if ps.len() == 0 {
        0
    } else {
        agg_price(id, ps.drop_last()) + if ps.last().order_id@ == id {
            ps.last().price as int
        } else {
            0
        }
    }
}

/// Aggregate the rows that match `order_id`: their quantities and prices are
/// summed, every other field of the result stays at its zero value. Rows
/// with a different order id are skipped.
pub fn aggrigate_position(order_id: String, positions: Vec<Position>) -> (pos: Position)
    requires
        forall|k: int|
            0 <= k <= positions@.len() ==> i64::MIN <= #[trigger] agg_qty(
                order_id@,
                positions@.take(k),
            ) <= i64::MAX,
        forall|k: int|
            0 <= k <= positions@.len() ==> i64::MIN <= #[trigger] agg_price(
                order_id@,
                positions@.take(k),
            ) <= i64::MAX,
    ensures
        pos.qty == agg_qty(order_id@, positions@),
        pos.price == agg_price(order_id@, positions@),
        pos.symbol@ == Seq::<char>::empty(),
        pos.order_id@ == Seq::<char>::empty(),
        pos.side@ == Seq::<char>::empty(),
        pos.pnl == 0,
{
    let mut qty: i64 = 0;
    let mut price: i64 = 0;
    let mut k: usize = 0;
    while k < positions.len()
        invariant
            k <= positions@.len(),
            qty == agg_qty(order_id@, positions@.take(k as int)),
            price == agg_price(order_id@, positions@.take(k as int)),
            forall|j: int|
                0 <= j <= positions@.len() ==> i64::MIN <= #[trigger] agg_qty(
                    order_id@,
                    positions@.take(j),
                ) <= i64::MAX,
            forall|j: int|
                0 <= j <= positions@.len() ==> i64::MIN <= #[trigger] agg_price(
                    order_id@,
                    positions@.take(j),
                ) <= i64::MAX,
        decreases positions@.len() - k,
    {
        proof {
            assert(positions@.take(k as int + 1).drop_last() =~= positions@.take(k as int));
            assert(positions@.take(k as int + 1).last() == positions@[k as int]);
            assert(agg_qty(order_id@, positions@.take(k as int + 1)) == agg_qty(
                order_id@,
                positions@.take(k as int),
            ) + if positions@[k as int].order_id@ == order_id@ {
                positions@[k as int].qty as int
            } else {
                0
            });
            assert(agg_price(order_id@, positions@.take(k as int + 1)) == agg_price(
                order_id@,
                positions@.take(k as int),
            ) + if positions@[k as int].order_id@ == order_id@ {
                positions@[k as int].price as int
            } else {
                0
            });
        }
        let p = &positions[k];
        if order_id == p.order_id {
            qty = qty + p.qty;
            price = price + p.price;
        }
        k += 1;
    }
    proof {
        assert(positions@.take(positions@.len() as int) =~= positions@);
    }
    Position {
        symbol: String::new(),
        order_id: String::new(),
        side: String::new(),
        qty,
        price,
        pnl: 0,
    }
}

} // verus!
