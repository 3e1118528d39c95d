use vstd::prelude::*;

verus! {

/// A trader's balances with one market, in native units.
#[derive(Clone, Copy, Debug, PartialEq, Eq, Structural)]
pub struct Position {
    pub base_free_native: u64,
    pub quote_free_native: u64,
    pub base_locked_native: u64,
    pub quote_locked_native: u64,
    /// Counts the events queued on this trader's behalf that were pushed out of
    /// a full queue, and the requests of this trader that grew the queue.
    pub penalty_heap_count: u64,
    /// Number of this trader's bids that came to rest in the book.
    pub bids_count: u64,
    /// Number of this trader's asks that came to rest in the book.
    pub asks_count: u64,
}

impl Position {
    pub fn new() -> (p: Position)
        ensures
            p == (Position {
                base_free_native: 0,
                quote_free_native: 0,
                base_locked_native: 0,
                quote_locked_native: 0,
                penalty_heap_count: 0,
                bids_count: 0,
                asks_count: 0,
            }),
    {
        Position {
            base_free_native: 0,
            quote_free_native: 0,
            base_locked_native: 0,
            quote_locked_native: 0,
            penalty_heap_count: 0,
            bids_count: 0,
            asks_count: 0,
        }
    }

    /// The position after one penalty: the counter grows by one and stops at
    /// the largest value it can hold.
    pub open spec fn penalized(self) -> Position {
        Position {
            penalty_heap_count: if self.penalty_heap_count < u64::MAX {
                (self.penalty_heap_count + 1) as u64
            } else {
                u64::MAX
            },
            ..self
        }
    }

    pub fn penalize(&mut self)
        ensures
            *final(self) == old(self).penalized(),
    {
        self.penalty_heap_count = self.penalty_heap_count.saturating_add(1);
    }
}

} // verus!
