//! Scenario checks for the pipeline stages: completion, spacing of place
//! calls, the self-price double check, partial fills, aggregation, the
//! controller validation, and the log buffer.

use board4rs::book::{Book, BookSide, Orderboard};
use board4rs::client::{Controller, Log, Logger};
use board4rs::exchange::ExchangeName;
use board4rs::filter;
use board4rs::order::{Config, OrderInfo, OrderSide};
use board4rs::position::{aggrigate_position, Position};
use board4rs::task::{
    apply_place_result, completion_log, decide_order, on_book_event, DataType, OrderDecision,
    OrderbookEvent,
};
use board4rs::{exchange, order};

fn position_row(order_id: &str, qty: i64, price: i64) -> Position {
    Position {
        symbol: "BTCUSDT".to_string(),
        order_id: order_id.to_string(),
        side: "Buy".to_string(),
        qty,
        price,
        pnl: 0,
    }
}

fn buy_config() -> Config {
    Config::new("BTCUSDT".to_string(), 10, OrderSide::Buy)
}

#[test]
fn completion_fires_when_fills_cover_the_quantity() {
    // a previous order "X" for quantity 1, fully filled by one position row
    let mut state = OrderInfo::new();
    state.order_id = Some("X".to_string());
    state.qty = 1;
    let positions = vec![position_row("X", 1, 42)];

    let decision = decide_order(&state, 60, positions, &buy_config(), "link".to_string());
    match decision {
        OrderDecision::Complete {
            order_id,
            remaining,
            executed,
        } => {
            assert_eq!(order_id, "X");
            assert_eq!(remaining, 0);
            assert_eq!(executed, 1);
            let entry = completion_log(&order_id, "ts".to_string());
            assert_eq!(entry.level, "success");
            assert!(entry.message.contains("[completed]"));
            assert!(entry.message.contains("X"));
        }
        other => panic!("expected completion, got {:?}", other),
    }
}

#[test]
fn only_the_first_of_two_close_targets_places() {
    let config = buy_config(); // interval_sec = 5, tick_size = 1
    let mut state = config.to_order_info();

    // first target arrives at t=1000
    assert!(state.is_allowed(1000));
    let decision = decide_order(&state, 100, vec![], &config, "link".to_string());
    let params = match decision {
        OrderDecision::Place { params } => params,
        other => panic!("expected a place, got {:?}", other),
    };
    assert_eq!(params.price, 101); // one tick above the wall for a buy
    assert_eq!(params.qty, 10);
    assert_eq!(params.order_id.as_deref(), Some("link"));
    assert!(params.is_post_only);
    assert!(apply_place_result(
        &mut state,
        100,
        Ok("exchange-id-1".to_string()),
        1000
    ));
    assert_eq!(state.order_id.as_deref(), Some("exchange-id-1"));
    assert_eq!(state.price, Some(100));

    // a second target only three seconds later is dropped by the spacing rule
    assert!(!state.is_allowed(1003));
    // and placing is allowed again exactly at the interval
    assert!(state.is_allowed(1005));
}

#[test]
fn a_target_at_the_own_price_is_skipped() {
    let mut state = OrderInfo::new();
    state.price = Some(100);
    state.qty = 10;
    let decision = decide_order(&state, 100, vec![], &buy_config(), "link".to_string());
    assert!(matches!(decision, OrderDecision::Skip));
}

#[test]
fn partial_fills_shrink_the_replaced_quantity() {
    let mut config = Config::new("BTCUSDT".to_string(), 10, OrderSide::Sell);
    config.tick_size = 2;
    let mut state = config.to_order_info();
    state.order_id = Some("A".to_string());
    // 4 of 10 filled under "A"; a row of another order does not count
    let positions = vec![position_row("A", 3, 70), position_row("B", 5, 70), position_row("A", 1, 71)];
    let decision = decide_order(&state, 70, positions, &config, "link".to_string());
    match decision {
        OrderDecision::Place { params } => {
            assert_eq!(params.qty, 6);
            assert_eq!(params.price, 68); // one (doubled) tick below the wall for a sell
            assert_eq!(params.side, OrderSide::Sell);
        }
        other => panic!("expected a place, got {:?}", other),
    }
}

#[test]
fn place_errors_move_only_the_spacing_clock() {
    let mut state = buy_config().to_order_info();
    state.order_id = Some("keep-me".to_string());
    let placed = apply_place_result(&mut state, 55, Err("retCode 110007".to_string()), 2000);
    assert!(!placed);
    assert_eq!(state.order_id.as_deref(), Some("keep-me"));
    assert_eq!(state.price, None);
    assert!(!state.is_allowed(2004));
    assert!(state.is_allowed(2005));
}

#[test]
fn aggregation_sums_exactly_the_matching_rows() {
    let rows = vec![
        position_row("X", 2, 10),
        position_row("Y", 7, 11),
        position_row("X", 3, 12),
    ];
    let agg = aggrigate_position("X".to_string(), rows);
    assert_eq!(agg.qty, 5);
    assert_eq!(agg.price, 22);
    assert_eq!(agg.symbol, "");
    assert_eq!(agg.order_id, "");
    assert_eq!(agg.pnl, 0);

    let empty = aggrigate_position("X".to_string(), vec![]);
    assert_eq!(empty.qty, 0);
    assert_eq!(empty.price, 0);
}

#[test]
fn book_events_feed_the_scan() {
    let mut board = Orderboard::new();
    let config = filter::Config {
        side: BookSide::Ask,
        hight: 1000,
        low: 0,
        size: 10,
    };
    // snapshot with a single wall at 30
    let snapshot = OrderbookEvent {
        kind: DataType::Snapshot,
        side_a_levels: vec![Book::new(5, 20), Book::new(15, 30), Book::new(15, 40)],
        side_b_levels: vec![Book::new(5, 10)],
    };
    assert_eq!(on_book_event(&mut board, snapshot, &config, None), (30, true));
    // a delta removes it; the next wall wins
    let delta = OrderbookEvent {
        kind: DataType::UpdateDelta,
        side_a_levels: vec![Book::new(0, 30)],
        side_b_levels: vec![],
    };
    assert_eq!(on_book_event(&mut board, delta, &config, None), (40, true));
    // excluding the engine's own price leaves nothing
    let empty_delta = OrderbookEvent {
        kind: DataType::UpdateDelta,
        side_a_levels: vec![],
        side_b_levels: vec![],
    };
    assert_eq!(on_book_event(&mut board, empty_delta, &config, Some(40)), (0, false));
}

#[test]
fn controller_names_the_first_failing_setting() {
    let mut controller = Controller {
        is_running: false,
        exchange: exchange::Config::new(
            ExchangeName::Bybit,
            "".to_string(),
            "".to_string(),
            None,
        ),
        board: filter::Config {
            side: BookSide::Ask,
            hight: 0,
            low: 0,
            size: 0,
        },
        order: order::Config::new("".to_string(), 0, OrderSide::Buy),
    };
    assert_eq!(controller.ok(), Err("exchange setting is empty"));
    controller.exchange.key = "api-key".to_string();
    controller.exchange.secret = "api-secret".to_string();
    assert_eq!(controller.ok(), Err("board setting is empty"));
    controller.board.hight = 100;
    controller.board.size = 1;
    assert_eq!(controller.ok(), Err("order setting is empty"));
    controller.order = order::Config::new("BTCUSDT".to_string(), 10, OrderSide::Buy);
    assert_eq!(controller.ok(), Ok(()));
    controller.is_running = true;
    assert_eq!(controller.ok(), Err("already running"));
}

#[test]
fn logger_buffers_appends_and_drains() {
    let entry = |msg: &str| Log {
        level: "info".to_string(),
        message: msg.to_string(),
        timestamp: "2024-01-01T00:00:00".to_string(),
    };
    let mut logger = Logger::new(Some(entry("start")));
    assert_eq!(logger.log.len(), 1);
    logger.add(entry("second"));
    assert_eq!(logger.log.len(), 2);
    assert_eq!(logger.log[0].message, "start");
    assert_eq!(logger.log[1].message, "second");

    // the reader drains: copy out, then clear
    let drained = logger.clone();
    logger.clear();
    assert_eq!(drained.log.len(), 2);
    assert_eq!(logger.log.len(), 0);

    assert_eq!(Logger::new(None).log.len(), 0);
}

#[test]
fn exchange_names_and_credentials() {
    assert_eq!(ExchangeName::Bybit.as_str(), "bybit");
    assert_eq!(ExchangeName::Bitbank.as_str(), "bitbank");
    assert_eq!(ExchangeName::Bitflyer.as_str(), "bitflyer");
    let config = exchange::Config::new(
        ExchangeName::Bybit,
        "api-key".to_string(),
        "".to_string(),
        None,
    );
    assert!(!config.is_ok());
}

#[test]
fn tick_arithmetic_is_exact() {
    let mut config = buy_config();
    config.tick_size = 2;
    assert_eq!(config.add_tick_size(100), 102);
    config.side = OrderSide::Sell;
    assert_eq!(config.add_tick_size(100), 98);
}
