//! The decisions of the two pipeline stages that act on order-book events:
//! the ingest stage (apply the event, then scan for a wall) and the
//! order-manager stage (skip, complete the run, or place a new order). The
//! surrounding process owns the channels, the clock and the exchange
//! adapter; every choice the stages make is taken here, on plain values.

use vstd::prelude::*;
use vstd::string::StringExecFns;

use crate::book::{apply_levels, scan_ok, side_map, Book, BookSide, Orderboard};
use crate::client::Log;
use crate::filter;
use crate::order::{Config, OrderInfo, OrderParams};
use crate::position::{agg_qty, aggrigate_position, Position};

verus! {

/// How an order-book event relates to the book: a full snapshot of both
/// sides, or a delta batch.
#[derive(Clone, Copy, PartialEq, Eq, Structural, Debug)]
pub enum DataType {
    Snapshot,
    UpdateDelta,
}

/// One message of the order-book feed: the ask levels, the bid levels, and
/// how to apply them.
#[derive(Clone, Debug)]
pub struct OrderbookEvent {
    pub kind: DataType,
    pub side_a_levels: Vec<Book>,
    pub side_b_levels: Vec<Book>,
}

/// The ingest step: fold one feed message into the book — replacing both
/// sides on a snapshot, applying both delta batches otherwise — then scan
/// the configured side for a wall, excluding the engine's own price. The
/// scan sees the book with the event already applied.
pub fn on_book_event(
    board: &mut Orderboard,
    event: OrderbookEvent,
    filter_config: &filter::Config,
    prev_own_order_price: Option<i64>,
) -> (r: (i64, bool))
    requires
        old(board).wf(),
    ensures
        final(board).wf(),
        event.kind == DataType::Snapshot ==> side_map(final(board).asks()) == apply_levels(
            Map::<i64, u64>::empty(),
            event.side_a_levels@,
        ) && side_map(final(board).bids()) == apply_levels(
            Map::<i64, u64>::empty(),
            event.side_b_levels@,
        ),
        event.kind == DataType::UpdateDelta ==> side_map(final(board).asks()) == apply_levels(
            side_map(old(board).asks()),
            event.side_a_levels@,
        ) && side_map(final(board).bids()) == apply_levels(
            side_map(old(board).bids()),
            event.side_b_levels@,
        ),
        final(board).spec_update_at() == old(board).spec_update_at(),
        scan_ok(
            final(board).side_seq(filter_config.side),
            *filter_config,
            prev_own_order_price,
            r,
        ),
{
    match event.kind {
        DataType::Snapshot => {
            board.replace(BookSide::Bid, event.side_b_levels);
            board.replace(BookSide::Ask, event.side_a_levels);
        },
        DataType::UpdateDelta => {
            board.update_delta(BookSide::Bid, event.side_b_levels);
            board.update_delta(BookSide::Ask, event.side_a_levels);
        },
    }
    board.target_book(filter_config, prev_own_order_price)
}

/// What the order manager resolves to do with one target price.
#[derive(Clone, Debug)]
pub enum OrderDecision {
    /// The target is the engine's own resting price: nothing to do.
    Skip,
    /// The previous order's fills cover the wanted quantity: the run is
    /// done. `remaining` is what was still open (at most zero), `executed`
    /// the filled quantity aggregated against that order id.
    Complete { order_id: String, remaining: i64, executed: i64 },
    /// Place (or re-place) an order with these parameters.
    Place { params: OrderParams },
}

/// The order-manager step, taken once the spacing check allows it and any
/// previous order was cancelled: drop a target equal to the engine's own
/// resting price; otherwise settle the remaining quantity against the
/// positions filled under the previous order id and either declare the run
/// complete or put together the next order, one tick more aggressive than
/// the wall.
pub fn decide_order(
    prev_order: &OrderInfo,
    target_price: i64,
    positions: Vec<Position>,
    order_config: &Config,
    order_link_id: String,
) -> (d: OrderDecision)
    requires
        prev_order.order_id matches Some(id) ==> (forall|k: int|
            0 <= k <= positions@.len() ==> i64::MIN <= #[trigger] agg_qty(
                id@,
                positions@.take(k),
            ) <= i64::MAX),
        prev_order.order_id matches Some(id) ==> (forall|k: int|
            0 <= k <= positions@.len() ==> i64::MIN <= #[trigger] crate::position::agg_price(
                id@,
                positions@.take(k),
            ) <= i64::MAX),
        prev_order.order_id matches Some(id) ==> i64::MIN <= prev_order.qty - agg_qty(
            id@,
            positions@,
        ) <= i64::MAX,
        i64::MIN <= order_config.spec_add_tick_size(target_price) <= i64::MAX,
    ensures
        prev_order.price == Some(target_price) <==> d == OrderDecision::Skip,
        prev_order.price != Some(target_price) && prev_order.order_id is Some && prev_order.qty
            - agg_qty(prev_order.order_id->0@, positions@) <= 0 ==> (
        d matches OrderDecision::Complete { order_id, remaining, executed }
            && Some(order_id) == prev_order.order_id && remaining == prev_order.qty - agg_qty(
            prev_order.order_id->0@,
            positions@,
        ) && executed == agg_qty(prev_order.order_id->0@, positions@)),
        prev_order.price != Some(target_price) && prev_order.order_id is Some && prev_order.qty
            - agg_qty(prev_order.order_id->0@, positions@) > 0 ==> (
        d matches OrderDecision::Place { params } && params.order_id == Some(order_link_id)
            && params.side == order_config.side && params.price
            == order_config.spec_add_tick_size(target_price) && params.qty == prev_order.qty
            - agg_qty(prev_order.order_id->0@, positions@) && params.is_post_only
            == order_config.is_post_only),
        prev_order.price != Some(target_price) && prev_order.order_id is None ==> (
        d matches OrderDecision::Place { params } && params.order_id == Some(order_link_id)
            && params.side == order_config.side && params.price
            == order_config.spec_add_tick_size(target_price) && params.qty == prev_order.qty
            && params.is_post_only == order_config.is_post_only),
{
    let same_price = match prev_order.price {
        Some(p) => p == target_price,
        None => false,
    };
    if same_price {
        return OrderDecision::Skip;
    }
    match &prev_order.order_id {
        Some(order_id) => {
            let has_position = aggrigate_position(order_id.clone(), positions);
            let remain = prev_order.qty - has_position.qty;
            if remain <= 0 {
                OrderDecision::Complete {
                    order_id: order_id.clone(),
                    remaining: remain,
                    executed: has_position.qty,
                }
            } else {
                OrderDecision::Place {
                    params: OrderParams {
                        order_id: Some(order_link_id),
                        side: order_config.side,
                        price: order_config.add_tick_size(target_price),
                        qty: remain,
                        is_post_only: order_config.is_post_only,
                    },
                }
            }
        },
        None => OrderDecision::Place {
            params: OrderParams {
                order_id: Some(order_link_id),
                side: order_config.side,
                price: order_config.add_tick_size(target_price),
                qty: prev_order.qty,
                is_post_only: order_config.is_post_only,
            },
        },
    }
}

/// The success entry recorded when the run completes; the process appends
/// it to the log buffer and then triggers the cancellation of every stage.
pub fn completion_log(order_id: &String, timestamp: String) -> (l: Log)
    ensures
        l.level@ == "success"@,
        l.message@ == "[completed] close runner by latest order id: "@ + order_id@,
        l.timestamp == timestamp,
{
    Log {
        level: String::from_str("success"),
        message: String::from_str("[completed] close runner by latest order id: ").concat(
            order_id.as_str(),
        ),
        timestamp,
    }
}

/// Fold the exchange's answer to a place call back into the order state: on
/// success the new order id, the targeted wall price and the action instant
/// are recorded; on failure only the action instant moves, so the spacing
/// interval also throttles retries after errors.
pub fn apply_place_result(
    order_manage: &mut OrderInfo,
    target_price: i64,
    result: Result<String, String>,
    now: i64,
) -> (placed: bool)
    ensures
        result matches Ok(id) ==> (*final(order_manage) == OrderInfo {
            order_id: Some(id),
            price: Some(target_price),
            latest_at: Some(now),
            ..*old(order_manage)
        } && placed),
        result matches Err(e) ==> (*final(order_manage) == old(order_manage).spec_set_error_order(
            now,
        ) && !placed),
{
    match result {
        Ok(id) => {
            order_manage.set_order(id, now);
            order_manage.price = Some(target_price);
            true
        },
        Err(_) => {
            order_manage.set_error_order(now);
            false
        },
    }
}

} // verus!
