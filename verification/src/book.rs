use vstd::prelude::*;
use crate::error::OpenBookError;
use crate::order::{RestingOrder, Side};

verus! {

/// True where price `p` is strictly better than `q` for an order resting on
/// `side`: higher for a bid, lower for an ask.
pub open spec fn better_price(side: Side, p: u64, q: u64) -> bool {
    match side {
        Side::Bid => p > q,
        Side::Ask => p < q,
    }
}

/// Price-time priority: `a` trades before `b` where its price is strictly
/// better, or equal with an earlier sequence number.
pub open spec fn goes_before(side: Side, a: RestingOrder, b: RestingOrder) -> bool {
    better_price(side, a.price, b.price) || (a.price == b.price && a.seq < b.seq)
}

/// The orders stand in strict priority order, best first.
pub open spec fn sorted(side: Side, orders: Seq<RestingOrder>) -> bool {
    forall|i: int, j: int| 0 <= i < j < orders.len() ==> goes_before(side, orders[i], orders[j])
}

/// True where a resting order of `side` at `resting` trades with an incoming
/// order of the other side limited at `limit`.
pub open spec fn crosses(side: Side, resting: u64, limit: u64) -> bool {
    match side {
        Side::Bid => resting >= limit,
        Side::Ask => resting <= limit,
    }
}

pub fn price_crosses(side: Side, resting: u64, limit: u64) -> (r: bool)
    ensures
        r == crosses(side, resting, limit),
{
    match side {
        Side::Bid => resting >= limit,
        Side::Ask => resting <= limit,
    }
}

pub fn has_priority(side: Side, a: &RestingOrder, b: &RestingOrder) -> (r: bool)
    ensures
        r == goes_before(side, *a, *b),
{
    let better = match side {
        Side::Bid => a.price > b.price,
        Side::Ask => a.price < b.price,
    };
    better || (a.price == b.price && a.seq < b.seq)
}

/// The other side.
pub open spec fn flip(side: Side) -> Side {
    match side {
        Side::Bid => Side::Ask,
        Side::Ask => Side::Bid,
    }
}

/// One side of the book: resting orders in priority order, best first.
pub struct BookSide {
    pub side: Side,
    pub orders: Vec<RestingOrder>,
    pub capacity: usize,
}

impl View for BookSide {
    type V = Seq<RestingOrder>;

    open spec fn view(&self) -> Seq<RestingOrder> {
        self.orders@
    }
}

impl BookSide {
    /// Within capacity, in strict priority order (so no two orders share a
    /// price and sequence number), every order with a price and a quantity.
    pub open spec fn wf(&self) -> bool {
        &&& self@.len() <= self.capacity
        &&& sorted(self.side, self@)
        &&& forall|i: int| 0 <= i < self@.len() ==> #[trigger] self@[i].price >= 1 && self@[i].quantity >= 1
    }

    /// True where some resting order has this price and sequence number.
    pub open spec fn has_key(&self, price: u64, seq: u64) -> bool {
        exists|i: int| 0 <= i < self@.len() && #[trigger] self@[i].price == price && self@[i].seq == seq
    }

    pub fn new(side: Side, capacity: usize) -> (b: BookSide)
        ensures
            b.wf(),
            b@ == Seq::<RestingOrder>::empty(),
            b.side == side,
            b.capacity == capacity,
    {
        BookSide { side, orders: Vec::new(), capacity }
    }

    pub fn len(&self) -> (n: usize)
        ensures
            n == self@.len(),
    {
        self.orders.len()
    }

    /// Tests the invariant, and that every order arrived before `next_seq`.
    pub fn is_wf_below(&self, next_seq: u64) -> (r: bool)
        ensures
            r == (self.wf() && forall|i: int| 0 <= i < self@.len() ==> #[trigger] self@[i].seq < next_seq),
    {
        let n = self.orders.len();
        if n > self.capacity {
            return false;
        }
        let ghost s = self@;
        let mut i: usize = 0;
        while i < n
            invariant
                i <= n,
                n == s.len(),
                s == self@,
                forall|a: int, b: int| 0 <= a < b < i ==> goes_before(self.side, s[a], s[b]),
                forall|a: int| 0 <= a < i ==> #[trigger] s[a].price >= 1 && s[a].quantity >= 1,
                forall|a: int| 0 <= a < i ==> #[trigger] s[a].seq < next_seq,
            decreases n - i,
        {
            let o = &self.orders[i];
            if o.price < 1 || o.quantity < 1 || o.seq >= next_seq {
                return false;
            }
            if i > 0 {
                if !has_priority(self.side, &self.orders[i - 1], o) {
                    assert(!goes_before(self.side, s[i - 1], s[i as int]));
                    return false;
                }
                assert forall|a: int| 0 <= a < i implies goes_before(self.side, s[a], s[i as int]) by {
                    if a < i - 1 {
                        assert(goes_before(self.side, s[a], s[i - 1]));
                    }
                }
            }
            i += 1;
        }
        true
    }

    /// The order that trades first, if any.
    pub fn peek_best(&self) -> (r: Option<&RestingOrder>)
        ensures
            self@.len() == 0 ==> r.is_none(),
            self@.len() > 0 ==> r == Some(&self@[0]),
    {
        if self.orders.len() == 0 {
            None
        } else {
            Some(&self.orders[0])
        }
    }

    /// True where the best resting order trades with an incoming order of the
    /// other side limited at `price`.
    pub fn is_crossed(&self, price: u64) -> (r: bool)
        ensures
            r == (self@.len() > 0 && crosses(self.side, self@[0].price, price)),
    {
        self.orders.len() > 0 && price_crosses(self.side, self.orders[0].price, price)
    }

    /// Puts `order` at the place its priority gives it and returns that place.
    pub fn insert(&mut self, order: RestingOrder) -> (r: Result<usize, OpenBookError>)
        requires
            old(self).wf(),
            order.price >= 1,
            order.quantity >= 1,
            !old(self).has_key(order.price, order.seq),
        ensures
            final(self).side == old(self).side,
            final(self).capacity == old(self).capacity,
            final(self).wf(),
            old(self)@.len() >= old(self).capacity ==> r == Err::<usize, OpenBookError>(
                OpenBookError::OrderBookFull,
            ) && final(self)@ == old(self)@,
            old(self)@.len() < old(self).capacity ==> r.is_ok() && r.unwrap() <= old(self)@.len()
                && final(self)@ == old(self)@.insert(r.unwrap() as int, order),
    {
        if self.orders.len() >= self.capacity {
            return Err(OpenBookError::OrderBookFull);
        }
        let side = self.side;
        let n = self.orders.len();
        let mut pos: usize = 0;
        while pos < n && has_priority(side, &self.orders[pos], &order)
            invariant
                pos <= n,
                n == self.orders@.len(),
                side == self.side,
                *self == *old(self),
                forall|k: int| 0 <= k < pos ==> goes_before(side, self.orders@[k], order),
            decreases n - pos,
        {
            pos += 1;
        }
        proof {
            let s = self.orders@;
            if pos < n {
                assert(!(s[pos as int].price == order.price && s[pos as int].seq == order.seq));
                assert(goes_before(side, order, s[pos as int]));
                assert forall|k: int| pos <= k < n implies goes_before(side, order, s[k]) by {
                    if k > pos {
                        assert(goes_before(side, s[pos as int], s[k]));
                    }
                }
            }
        }
        self.orders.insert(pos, order);
        proof {
            let s = old(self)@;
            let t = self.orders@;
            assert(t == s.insert(pos as int, order));
            assert forall|i: int, j: int| 0 <= i < j < t.len() implies goes_before(
                side,
                t[i],
                t[j],
            ) by {
                if j < pos {
                    assert(t[i] == s[i] && t[j] == s[j]);
                } else if j == pos {
                    assert(t[i] == s[i]);
                } else if i < pos {
                    assert(t[i] == s[i] && t[j] == s[j - 1]);
                } else if i == pos {
                    assert(t[j] == s[j - 1]);
                } else {
                    assert(t[i] == s[i - 1] && t[j] == s[j - 1]);
                }
            }
            assert forall|i: int| 0 <= i < t.len() implies #[trigger] t[i].price >= 1
                && t[i].quantity >= 1 by {
                if i < pos {
                    assert(t[i] == s[i]);
                } else if i > pos {
                    assert(t[i] == s[i - 1]);
                }
            }
        }
        Ok(pos)
    }

    /// Removes the order with the given price and sequence number.
    pub fn remove(&mut self, price: u64, seq: u64) -> (r: Option<RestingOrder>)
        requires
            old(self).wf(),
        ensures
            final(self).side == old(self).side,
            final(self).capacity == old(self).capacity,
            final(self).wf(),
            r.is_some() == old(self).has_key(price, seq),
            r.is_none() ==> final(self)@ == old(self)@,
            r.is_some() ==> exists|i: int|
                0 <= i < old(self)@.len() && old(self)@[i] == r.unwrap() && final(self)@ == old(
                    self,
                )@.remove(i),
            r.is_some() ==> r.unwrap().price == price && r.unwrap().seq == seq,
    {
        let n = self.orders.len();
        let mut i: usize = 0;
        while i < n
            invariant
                i <= n,
                n == self.orders@.len(),
                *self == *old(self),
                self.wf(),
                forall|k: int| 0 <= k < i ==> !(#[trigger] self.orders@[k].price == price && self.orders@[k].seq == seq),
            decreases n - i,
        {
            if self.orders[i].price == price && self.orders[i].seq == seq {
                let o = self.orders.remove(i);
                proof {
                    let s = old(self)@;
                    let t = self.orders@;
                    assert(t == s.remove(i as int));
                    assert(s[i as int].price == price && s[i as int].seq == seq);
                    assert forall|a: int, b: int| 0 <= a < b < t.len() implies goes_before(
                        self.side,
                        t[a],
                        t[b],
                    ) by {
                        assert(t[a] == s[if a < i { a } else { a + 1 }]);
                        assert(t[b] == s[if b < i { b } else { b + 1 }]);
                    }
                    assert forall|a: int| 0 <= a < t.len() implies #[trigger] t[a].price >= 1
                        && t[a].quantity >= 1 by {
                        assert(t[a] == s[if a < i { a } else { a + 1 }]);
                    }
                }
                return Some(o);
            }
            i += 1;
        }
        None
    }
}

/// Both sides of a market's book.
pub struct Orderbook {
    pub bids: BookSide,
    pub asks: BookSide,
}

impl Orderbook {
    /// Both sides are well formed and each holds orders of its own side.
    pub open spec fn wf(&self) -> bool {
        &&& self.bids.wf()
        &&& self.asks.wf()
        &&& self.bids.side == Side::Bid
        &&& self.asks.side == Side::Ask
    }

    /// Every resting order arrived before sequence number `next`.
    pub open spec fn seqs_below(&self, next: u64) -> bool {
        &&& forall|i: int| 0 <= i < self.bids@.len() ==> #[trigger] self.bids@[i].seq < next
        &&& forall|i: int| 0 <= i < self.asks@.len() ==> #[trigger] self.asks@[i].seq < next
    }

    /// Tests the invariant, and that every order arrived before `next_seq`.
    pub fn is_wf_below(&self, next_seq: u64) -> (r: bool)
        ensures
            r == (self.wf() && self.seqs_below(next_seq)),
    {
        matches!(self.bids.side, Side::Bid) && matches!(self.asks.side, Side::Ask) && self.bids.is_wf_below(
            next_seq,
        ) && self.asks.is_wf_below(next_seq)
    }

    pub open spec fn side_of(&self, side: Side) -> BookSide {
        match side {
            Side::Bid => self.bids,
            Side::Ask => self.asks,
        }
    }

    /// The order of `side` that trades first, if any.
    pub fn peek_best(&self, side: Side) -> (r: Option<&RestingOrder>)
        ensures
            self.side_of(side)@.len() == 0 ==> r.is_none(),
            self.side_of(side)@.len() > 0 ==> r == Some(&self.side_of(side)@[0]),
    {
        match side {
            Side::Bid => self.bids.peek_best(),
            Side::Ask => self.asks.peek_best(),
        }
    }

    /// True where the best order resting on `side` trades with an incoming
    /// order of the other side limited at `price`.
    pub fn is_crossed(&self, side: Side, price: u64) -> (r: bool)
        requires
            self.wf(),
        ensures
            r == (self.side_of(side)@.len() > 0 && crosses(side, self.side_of(side)@[0].price, price)),
    {
        match side {
            Side::Bid => self.bids.is_crossed(price),
            Side::Ask => self.asks.is_crossed(price),
        }
    }

    /// Rests `order` on `side` at the place its priority gives it.
    pub fn insert(&mut self, side: Side, order: RestingOrder) -> (r: Result<usize, OpenBookError>)
        requires
            old(self).wf(),
            order.price >= 1,
            order.quantity >= 1,
            !old(self).side_of(side).has_key(order.price, order.seq),
        ensures
            final(self).wf(),
            final(self).side_of(side).capacity == old(self).side_of(side).capacity,
            final(self).side_of(flip(side)) == old(self).side_of(flip(side)),
            old(self).side_of(side)@.len() >= old(self).side_of(side).capacity ==> r == Err::<
                usize,
                OpenBookError,
            >(OpenBookError::OrderBookFull) && final(self).side_of(side)@ == old(self).side_of(side)@,
            old(self).side_of(side)@.len() < old(self).side_of(side).capacity ==> r.is_ok()
                && r.unwrap() <= old(self).side_of(side)@.len() && final(self).side_of(side)@ == old(
                self,
            ).side_of(side)@.insert(r.unwrap() as int, order),
    {
        match side {
            Side::Bid => self.bids.insert(order),
            Side::Ask => self.asks.insert(order),
        }
    }

    /// Takes the order with the given price and sequence number off `side`.
    pub fn remove(&mut self, side: Side, price: u64, seq: u64) -> (r: Option<RestingOrder>)
        requires
            old(self).wf(),
        ensures
            final(self).wf(),
            final(self).side_of(side).capacity == old(self).side_of(side).capacity,
            final(self).side_of(flip(side)) == old(self).side_of(flip(side)),
            r.is_some() == old(self).side_of(side).has_key(price, seq),
            r.is_none() ==> final(self).side_of(side)@ == old(self).side_of(side)@,
            r.is_some() ==> r.unwrap().price == price && r.unwrap().seq == seq && exists|i: int|
                0 <= i < old(self).side_of(side)@.len() && old(self).side_of(side)@[i] == r.unwrap()
                    && final(self).side_of(side)@ == old(self).side_of(side)@.remove(i),
    {
        match side {
            Side::Bid => self.bids.remove(price, seq),
            Side::Ask => self.asks.remove(price, seq),
        }
    }

    pub fn new(capacity: usize) -> (b: Orderbook)
        ensures
            b.wf(),
            b.bids@.len() == 0,
            b.asks@.len() == 0,
            b.bids.capacity == capacity,
            b.asks.capacity == capacity,
    {
        Orderbook { bids: BookSide::new(Side::Bid, capacity), asks: BookSide::new(Side::Ask, capacity) }
    }
}

/// In a well-formed side, an order nearer the front has a strictly better
/// price than any order behind it, or the same price and an earlier sequence
/// number. Matching takes orders from the front, so it takes better prices
/// first and, among equal prices, earlier orders first.
pub proof fn lemma_price_time_priority(side: BookSide, i: int, j: int)
    requires
        side.wf(),
        0 <= i < j < side@.len(),
    ensures
        better_price(side.side, side@[i].price, side@[j].price) || (side@[i].price
            == side@[j].price && side@[i].seq < side@[j].seq),
        !(side@[i].price == side@[j].price && side@[i].seq == side@[j].seq),
{
    assert(goes_before(side.side, side@[i], side@[j]));
}

} // verus!
