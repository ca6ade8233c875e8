use std::time::Instant;

use rand::RngExt;

use board4rs::book::{Book, BookSide, Orderboard};
use board4rs::filter::Config;

// Prices are in ticks; sizes are in tenths of a base unit, so a
// threshold of 1.0 becomes 10 and a wall of 1.5 becomes 15.

fn setup_board(
    price_min: usize,
    price_max: usize,
    target_price: usize,
    side: BookSide,
) -> Orderboard {
    let mut board = Orderboard::new();
    let mut books = Vec::new();
    for i in price_min..=price_max {
        let size = if i % target_price == 0 { 15 } else { 10 };
        books.push(Book::new(size, i as i64));
    }
    match side {
        BookSide::Ask => board.replace_ask(books),
        BookSide::Bid => board.replace_bid(books),
    }
    board
}

fn create_config(side: BookSide, price_max: usize, price_min: usize) -> Config {
    Config {
        side,
        hight: price_max as i64,
        low: price_min as i64,
        size: 10,
    }
}

#[test]
fn test_target_book_ask() {
    let price_max = 10000;
    let price_min = 1;

    let wall_price = rand::rng().random_range(7..price_max - 1);
    let excluded_price = None;

    let expected_is_found = true;
    let expected_price = wall_price as i64;
    let expected_best_ask = 1;

    let board = setup_board(price_min, price_max, wall_price, BookSide::Ask);
    let config = create_config(BookSide::Ask, price_max + 1, price_min - 1);

    let (price, is_found) = board.target_book(&config, excluded_price);
    assert_eq!(
        is_found, expected_is_found,
        "price: {}, expected: {}",
        price, expected_price,
    );
    let best_ask = board.best(BookSide::Ask);
    assert_eq!(
        price, expected_price,
        "wall_price: {}, best_ask: {}",
        wall_price, best_ask
    );
    assert_eq!(best_ask, expected_best_ask);
}

#[test]
fn test_target_book_bid() {
    let price_max = 10000;
    let price_min = 1;

    let wall_price = rand::rng().random_range(7..price_max - 1);
    let excluded_price = None;

    let expected_is_found = true;
    let expected_price = (price_max / wall_price * wall_price) as i64;
    let expected_best_bid = price_max as i64;

    let board = setup_board(price_min, price_max, wall_price, BookSide::Bid);
    let config = create_config(BookSide::Bid, price_max + 1, price_min - 1);

    let (price, is_found) = board.target_book(&config, excluded_price);
    assert_eq!(
        is_found, expected_is_found,
        "price: {}, expected: {}",
        price, expected_price,
    );
    let best_bid = board.best(BookSide::Bid);
    let binding = board.bid();
    let book = binding.iter().find(|b| b.price == best_bid).unwrap();
    assert_eq!(
        price, expected_price,
        "wall_price: {}, best_bid: {}, book: {:?}",
        wall_price, best_bid, book
    );
    assert_eq!(price % wall_price as i64, 0);
    assert_eq!(best_bid, expected_best_bid);
}

#[test]
fn test_target_book_ask_with_prev_exclusion() {
    let price_max = 10000;
    let price_min = 1;

    let divis = rand::rng().random_range(7..99);
    let wall_price = divis;
    let min_wall_price = divis;
    let excluded_price = Some(min_wall_price as i64);

    let expected_is_found = true;
    let expected_price = (min_wall_price * 2) as i64;
    let expected_best_ask = price_min as i64;

    let board = setup_board(price_min, price_max, wall_price, BookSide::Ask);
    let config = create_config(BookSide::Ask, price_max + 1, price_min - 1);

    let (price, is_found) = board.target_book(&config, excluded_price);
    assert_eq!(
        is_found, expected_is_found,
        "price: {}, expected: {}",
        price, expected_price,
    );
    assert_eq!(price, expected_price, "wall_price: {}", wall_price);
    assert_eq!(price % wall_price as i64, 0);

    let best_ask = board.best(BookSide::Ask);
    assert_eq!(best_ask, expected_best_ask);
}

#[test]
fn test_target_book_bid_with_prev_exclusion() {
    let price_max = 10000;
    let price_min = 1;

    let divis = rand::rng().random_range(7..99);
    let wall_price = divis;
    let max_wall_price = price_max / divis * divis;
    let excluded_price = Some(max_wall_price as i64);

    let expected_is_found = true;
    let expected_price = (max_wall_price - divis) as i64;
    let expected_best_bid = price_max as i64;

    let board = setup_board(price_min, price_max, wall_price, BookSide::Bid);
    let config = create_config(BookSide::Bid, price_max + 1, price_min - 1);

    let (price, is_found) = board.target_book(&config, excluded_price);
    assert_eq!(
        is_found, expected_is_found,
        "price: {}, expected: {}",
        price, expected_price,
    );
    assert_eq!(price, expected_price, "wall_price: {}", wall_price);
    assert_eq!(price % wall_price as i64, 0);

    let best_bid = board.best(BookSide::Bid);
    assert_eq!(best_bid, expected_best_bid);
}

#[test]
fn n_count_try() {
    let start = Instant::now();
    let count = 1000;
    for _ in 0..count {
        test_target_book_ask();
        test_target_book_bid();
        test_target_book_ask_with_prev_exclusion();
        test_target_book_bid_with_prev_exclusion();
    }

    println!("{} times: {}ms", count, start.elapsed().as_millis());
}
