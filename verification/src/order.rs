//! Order configuration and the state of the single outstanding order,
//! including the minimum spacing between consecutive order actions.

use vstd::prelude::*;

verus! {

/// Direction of the engine's own order.
#[derive(Clone, Copy, PartialEq, Eq, Structural, Debug)]
pub enum OrderSide {
    Buy,
    Sell,
}

/// Static order parameters of one run.
#[derive(Clone, Debug)]
pub struct Config {
    pub symbol: String,
    pub side: OrderSide,
    pub size: i64,
    pub is_post_only: bool,
    pub tick_size: i64,
    pub interval_sec: i64,
}

impl Config {
    pub fn new(symbol: String, size: i64, side: OrderSide) -> (c: Config)
        ensures
            c.symbol == symbol,
            c.side == side,
            c.size == size,
            c.is_post_only == true,
            c.tick_size == 1,
            c.interval_sec == 5,
    {
        Config { symbol, side, size, is_post_only: true, tick_size: 1, interval_sec: 5 }
    }

    /// The initial state of the outstanding order derived from this
    /// configuration: nothing placed yet, the full size still to fill.
    pub fn to_order_info(&self) -> (info: OrderInfo)
        ensures
            info.order_id is None,
            info.price is None,
            info.qty == self.size,
            info.interval_sec == self.interval_sec,
            info.latest_at is None,
    {
        OrderInfo {
            order_id: None,
            price: None,
            qty: self.size,
            interval_sec: self.interval_sec,
            latest_at: None,
        }
    }

    /// Usable when a symbol is given and the size is positive.
    pub open spec fn spec_is_ok(self) -> bool {
        self.symbol@.len() > 0 && self.size > 0
    }

    pub fn is_ok(&self) -> (r: bool)
        ensures
            r == self.spec_is_ok(),
    {
        if self.symbol.as_str().is_empty() || self.size <= 0 {
            return false;
        }
        true
    }

    /// The price one tick more aggressive than `price`: above it for a buy,
    /// below it for a sell.
    pub open spec fn spec_add_tick_size(self, price: i64) -> int {
        match self.side {
            OrderSide::Buy => price + self.tick_size,
            OrderSide::Sell => price - self.tick_size,
        }
    }

    pub fn add_tick_size(&self, price: i64) -> (r: i64)
        requires
            i64::MIN <= self.spec_add_tick_size(price) <= i64::MAX,
        ensures
            r == self.spec_add_tick_size(price),
    {
        match self.side {
            OrderSide::Buy => price + self.tick_size,
            OrderSide::Sell => price - self.tick_size,
        }
    }
}

/// The one outstanding order: its exchange id, the wall price it targeted,
/// the quantity the run still wants, the spacing interval, and the instant
/// of the last place or error.
#[derive(Clone, Debug)]
pub struct OrderInfo {
    pub order_id: Option<String>,
    pub price: Option<i64>,
    pub qty: i64,
    pub interval_sec: i64,
    pub latest_at: Option<i64>,
}

impl OrderInfo {
    pub fn new() -> (info: OrderInfo)
        ensures
            info.order_id is None,
            info.price is None,
            info.qty == 0,
            info.interval_sec == 5,
            info.latest_at is None,
    {
        OrderInfo { order_id: None, price: None, qty: 0, interval_sec: 5, latest_at: None }
    }

    /// The spacing check passes before any action was recorded, and again once
    /// `interval_sec` seconds have passed since the last one (inclusive
    /// boundary).
    pub open spec fn spec_is_allowed(self, now: i64) -> bool {
        match self.latest_at {
            Some(prev) => now - prev >= self.interval_sec,
            None => true,
        }
    }

    pub fn is_allowed(&self, now: i64) -> (r: bool)
        ensures
            r == self.spec_is_allowed(now),
    {
        if let Some(prev) = self.latest_at {
            let diff: i128 = now as i128 - prev as i128;
            if diff < self.interval_sec as i128 {
                return false;
            }
        }
        true
    }

    /// The state after a successful place of order `order_id` at instant
    /// `now`.
    pub open spec fn spec_set_order(self, order_id: String, now: i64) -> OrderInfo {
        OrderInfo { order_id: Some(order_id), latest_at: Some(now), ..self }
    }

    pub fn set_order(&mut self, order_id: String, now: i64)
        ensures
            *final(self) == old(self).spec_set_order(order_id, now),
    {
        self.order_id = Some(order_id);
        self.latest_at = Some(now);
    }

    /// The state after a failed place at instant `now`: only the spacing
    /// clock moves, so the interval also separates retries after errors.
    pub open spec fn spec_set_error_order(self, now: i64) -> OrderInfo {
        OrderInfo { latest_at: Some(now), ..self }
    }

    pub fn set_error_order(&mut self, now: i64)
        ensures
            *final(self) == old(self).spec_set_error_order(now),
    {
        self.latest_at = Some(now);
    }
}

/// Spacing law: before anything is recorded every action is allowed;
/// recording a place at `t0` forbids every instant less than
/// `t0 + interval_sec` and allows every instant from `t0 + interval_sec`
/// on — in particular, an allowed instant stays allowed as time moves
/// forward.
pub proof fn lemma_spacing(st: OrderInfo, order_id: String, t0: i64, t: i64)
    ensures
        st.latest_at is None ==> st.spec_is_allowed(t),
        st.spec_set_order(order_id, t0).spec_is_allowed(t) <==> t - t0 >= st.interval_sec,
        forall|t1: i64, t2: i64|
            t1 <= t2 && #[trigger] st.spec_set_order(order_id, t0).spec_is_allowed(t1)
                ==> #[trigger] st.spec_set_order(order_id, t0).spec_is_allowed(t2),
{
}

/// What one place call asks of the exchange.
#[derive(Clone, Debug)]
pub struct OrderParams {
    pub order_id: Option<String>,
    pub side: OrderSide,
    pub price: i64,
    pub qty: i64,
    pub is_post_only: bool,
}

} // verus!
