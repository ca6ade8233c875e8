//! The wall predicate: a level qualifies when its price lies strictly inside
//! the configured band and its size strictly exceeds the configured minimum,
//! unless it is the engine's own resting order.

use vstd::prelude::*;

use crate::book::{Book, BookSide};

verus! {

/// Parameters of the wall scan.
///
/// `hight` is the exclusive upper price bound, `low` the exclusive lower
/// price bound, and `size` the exclusive size threshold a level must exceed
/// to count as a wall.
#[derive(Clone, Copy, Debug)]
pub struct Config {
    pub side: BookSide,
    pub hight: i64,
    pub low: i64,
    pub size: u64,
}

impl Config {
    /// A configuration is usable when the band is non-degenerate: positive
    /// upper bound, non-negative lower bound, positive size threshold.
    pub open spec fn spec_is_ok(self) -> bool {
        self.hight > 0 && self.low >= 0 && self.size > 0
    }

    pub fn is_ok(&self) -> (r: bool)
        ensures
            r == self.spec_is_ok(),
    {
        self.hight > 0 && self.low >= 0 && self.size > 0
    }

    /// The level's price lies strictly inside the band.
    pub open spec fn spec_is_range(self, book: Book) -> bool {
        self.hight > book.price && self.low < book.price
    }

    pub fn is_range(&self, book: &Book) -> (r: bool)
        ensures
            r == self.spec_is_range(*book),
    {
        self.hight > book.price && self.low < book.price
    }

    /// The level's size strictly exceeds the threshold.
    pub open spec fn spec_is_large(self, book: Book) -> bool {
        self.size < book.size
    }

    pub fn is_large(&self, book: &Book) -> (r: bool)
        ensures
            r == self.spec_is_large(*book),
    {
        self.size < book.size
    }

    /// The level sits exactly at the engine's own resting price, so the scan
    /// must pass over it and look for the next candidate.
    pub open spec fn spec_is_excluded(self, book: Book, own_price: Option<i64>) -> bool {
        match own_price {
            Some(price) => price == book.price,
            None => false,
        }
    }

    /// The scan's conjunction: a wall is a large level inside the band that
    /// is not the engine's own order.
    pub open spec fn spec_is_wall(self, own_price: Option<i64>, book: Book) -> bool {
        self.spec_is_large(book) && self.spec_is_range(book) && !self.spec_is_excluded(
            book,
            own_price,
        )
    }

    pub fn is_excluded(&self, book: &Book, own_price: Option<i64>) -> (r: bool)
        ensures
            r == self.spec_is_excluded(*book, own_price),
    {
        match own_price {
            Some(price) => price == book.price,
            None => false,
        }
    }
}

} // verus!
