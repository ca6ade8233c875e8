//! Verified core of a limit-order placement engine that chases a "wall":
//! a resting order-book level whose size exceeds a configured threshold
//! inside a configured price band.
//!
//! Prices and sizes are fixed-point values carried as integers (a price is a
//! number of minimum price increments, a size a number of minimum size
//! increments), so every comparison and every piece of arithmetic the engine
//! performs is verified exactly. The surrounding process converts wire values
//! to and from this representation at its boundary.

pub mod book;
pub mod client;
pub mod exchange;
pub mod filter;
pub mod order;
pub mod position;
pub mod task;
