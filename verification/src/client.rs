//! The run controller — validated configuration for one run — and the
//! in-memory log buffer the user interface drains.

use vstd::prelude::*;

use crate::exchange;
use crate::filter;
use crate::order;

verus! {

/// Everything one run needs: the venue, the band to scan, and the order to
/// work.
#[derive(Clone, Debug)]
pub struct Controller {
    pub is_running: bool,
    pub exchange: exchange::Config,
    pub board: filter::Config,
    pub order: order::Config,
}

impl Controller {
    /// A controller may start a run exactly when it is not already running
    /// and all three settings are usable; otherwise the failing setting is
    /// named, checked in the order: running, exchange, board, order.
    pub fn ok(&self) -> (r: Result<(), &'static str>)
        ensures
            r is Ok <==> !self.is_running && self.exchange.spec_is_ok() && self.board.spec_is_ok()
                && self.order.spec_is_ok(),
            self.is_running ==> (r matches Err(e) && e@ == "already running"@),
            !self.is_running && !self.exchange.spec_is_ok() ==> (r matches Err(e) && e@
                == "exchange setting is empty"@),
            !self.is_running && self.exchange.spec_is_ok() && !self.board.spec_is_ok() ==> (
            r matches Err(e) && e@ == "board setting is empty"@),
            !self.is_running && self.exchange.spec_is_ok() && self.board.spec_is_ok()
                && !self.order.spec_is_ok() ==> (r matches Err(e) && e@
                == "order setting is empty"@),
    {
        if self.is_running {
            Err("already running")
        } else if !self.exchange.is_ok() {
            Err("exchange setting is empty")
        } else if !self.board.is_ok() {
            Err("board setting is empty")
        } else if !self.order.is_ok() {
            Err("order setting is empty")
        } else {
            Ok(())
        }
    }
}

/// One entry of the in-memory log buffer.
#[derive(Clone, Debug)]
pub struct Log {
    pub level: String,
    pub message: String,
    pub timestamp: String,
}

/// The in-memory log buffer: entries are appended in order and drained by
/// the reader.
#[derive(Clone, Debug)]
pub struct Logger {
    pub log: Vec<Log>,
}

impl Logger {
    /// A fresh buffer, optionally seeded with a first entry.
    pub fn new(log: Option<Log>) -> (l: Logger)
        ensures
            match log {
                Some(entry) => l.log@ =~= seq![entry],
                None => l.log@ =~= Seq::<Log>::empty(),
            },
    {
        match log {
            Some(log) => Logger { log: vec![log] },
            None => Logger { log: vec![] },
        }
    }

    /// Append one entry; nothing already buffered moves.
    pub fn add(&mut self, log: Log)
        ensures
            final(self).log@ == old(self).log@.push(log),
    {
        self.log.push(log);
    }

    /// Drop every buffered entry.
    pub fn clear(&mut self)
        ensures
            final(self).log@ == Seq::<Log>::empty(),
    {
        self.log.clear();
    }
}

} // verus!
