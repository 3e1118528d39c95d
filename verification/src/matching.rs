use vstd::prelude::*;
use crate::book::{crosses, goes_before, price_crosses, BookSide};
use crate::error::OpenBookError;
use crate::event_heap::Event;
use crate::order::{RestingOrder, SelfTradeBehavior, Side};

verus! {

/// What the matching walk needs to know of the incoming order.
#[derive(Clone, Copy, Debug, PartialEq, Eq, Structural)]
pub struct Taker {
    /// Index of the taker's position in the ledger.
    pub owner: usize,
    /// Side of the book that the taker's order trades against.
    pub against: Side,
    /// Worst price at which the taker still trades.
    pub limit_price: u64,
    pub self_trade: SelfTradeBehavior,
    /// The order must not trade: a crossing resting order ends the walk.
    pub post_only: bool,
    pub now_ts: u64,
    /// Largest number of resting orders that one walk may touch.
    pub limit: u8,
    /// The market's maker rate, recorded in every fill.
    pub maker_fee: i64,
    /// The market's taker rate, recorded in every fill.
    pub taker_fee: u64,
}

/// Progress of a matching walk, as a mathematical value.
pub struct MatchState {
    /// Resting orders touched so far: a prefix of the side.
    pub consumed: int,
    pub remaining_base: u64,
    pub remaining_quote: u64,
    /// One event per touched order, in the order touched.
    pub events: Seq<Event>,
    /// Quantity left on the last touched order where it was only partly
    /// filled; that order stays in the book.
    pub partial: Option<u64>,
    /// A post-only order met a resting order that it would trade with.
    pub blocked: bool,
}

/// Result of a matching walk.
pub struct Matched {
    pub consumed: usize,
    pub remaining_base: u64,
    pub remaining_quote: u64,
    pub events: Vec<Event>,
    pub partial: Option<u64>,
    pub blocked: bool,
}

impl View for Matched {
    type V = MatchState;

    open spec fn view(&self) -> MatchState {
        MatchState {
            consumed: self.consumed as int,
            remaining_base: self.remaining_base,
            remaining_quote: self.remaining_quote,
            events: self.events@,
            partial: self.partial,
            blocked: self.blocked,
        }
    }
}

pub open spec fn min_u64(a: u64, b: u64) -> u64 {
    if a <= b {
        a
    } else {
        b
    }
}

pub fn min_of(a: u64, b: u64) -> (r: u64)
    ensures
        r == min_u64(a, b),
{
    if a <= b {
        a
    } else {
        b
    }
}

/// Base lots that trade against `resting`: the smallest of what the taker
/// still wants, what rests, and what the taker's remaining quote lots buy at
/// the resting price.
pub open spec fn trade_quantity(remaining_base: u64, remaining_quote: u64, resting: RestingOrder) -> u64
    recommends
        resting.price >= 1,
{
    min_u64(min_u64(remaining_base, resting.quantity), remaining_quote / resting.price)
}

/// The start of a walk.
pub open spec fn start_state(max_base: u64, max_quote: u64) -> MatchState {
    MatchState {
        consumed: 0,
        remaining_base: max_base,
        remaining_quote: max_quote,
        events: Seq::empty(),
        partial: None,
        blocked: false,
    }
}

/// The state after `o` left the book without a trade.
pub open spec fn after_out(st: MatchState, o: RestingOrder) -> MatchState {
    MatchState {
        consumed: st.consumed + 1,
        events: st.events.push(Event::Out { owner: o.owner, seq: o.seq, quantity: o.quantity }),
        ..st
    }
}

/// The state after `q` lots traded against `o` at its price.
pub open spec fn after_fill(st: MatchState, t: Taker, o: RestingOrder, q: u64) -> MatchState {
    MatchState {
        consumed: st.consumed + 1,
        remaining_base: (st.remaining_base - q) as u64,
        remaining_quote: (st.remaining_quote - q * o.price) as u64,
        events: st.events.push(
            Event::Fill {
                maker: o.owner,
                maker_seq: o.seq,
                taker: t.owner,
                price: o.price,
                quantity: q,
                maker_fee: t.maker_fee,
                taker_fee: t.taker_fee,
            },
        ),
        partial: if q < o.quantity {
            Some((o.quantity - q) as u64)
        } else {
            None
        },
        blocked: false,
    }
}

/// True where the walk ends before looking at the next resting order.
pub open spec fn walk_done(side: Seq<RestingOrder>, t: Taker, st: MatchState) -> bool {
    st.consumed < 0 || st.consumed >= side.len() || st.consumed >= t.limit || st.remaining_base == 0
        || st.partial.is_some() || st.blocked
}

/// The matching walk from state `st` on: it takes resting orders from the
/// front of `side` while the taker wants more, the next order crosses the
/// taker's limit and fewer than `t.limit` orders were touched.
pub open spec fn match_from(side: Seq<RestingOrder>, t: Taker, st: MatchState) -> Result<
    MatchState,
    OpenBookError,
>
    decreases side.len() - st.consumed,
{
    if walk_done(side, t, st) {
        Ok(st)
    } else {
        let o = side[st.consumed];
        if !crosses(t.against, o.price, t.limit_price) {
            Ok(st)
        } else if o.expired_at(t.now_ts) {
            match_from(side, t, after_out(st, o))
        } else if t.post_only {
            Ok(MatchState { blocked: true, ..st })
        } else if o.owner == t.owner && t.self_trade == SelfTradeBehavior::AbortTransaction {
            Err(OpenBookError::SelfTradeRejected)
        } else if o.owner == t.owner && t.self_trade == SelfTradeBehavior::CancelProvide {
            match_from(side, t, after_out(st, o))
        } else {
            let q = trade_quantity(st.remaining_base, st.remaining_quote, o);
            if q == 0 {
                Ok(st)
            } else {
                match_from(side, t, after_fill(st, t, o, q))
            }
        }
    }
}

/// Base lots traded by a sequence of events.
pub open spec fn filled_total(events: Seq<Event>) -> nat
    decreases events.len(),
{
    if events.len() == 0 {
        0
    } else {
        filled_total(events.drop_last()) + events.last().filled()
    }
}

/// Quote lots traded by a sequence of events: quantity times price, summed.
pub open spec fn notional_total(events: Seq<Event>) -> nat
    decreases events.len(),
{
    if events.len() == 0 {
        0
    } else {
        notional_total(events.drop_last()) + match events.last() {
            Event::Fill { price, quantity, .. } => (quantity * price) as nat,
            Event::Out { .. } => 0,
        }
    }
}

/// Every event is about the resting order at its own place in `side`.
pub open spec fn events_follow(side: Seq<RestingOrder>, events: Seq<Event>) -> bool {
    &&& events.len() <= side.len()
    &&& forall|j: int|
        0 <= j < events.len() ==> (#[trigger] events[j]).seq() == side[j].seq && events[j].owner()
            == side[j].owner && (events[j] matches Event::Fill { price, quantity, .. } ==> price
            == side[j].price && 1 <= quantity <= side[j].quantity)
}

/// Walks `side` for the taker `t`, who wants at most `max_base` base lots for
/// at most `max_quote` quote lots. Nothing is changed: the result says which
/// prefix of the side was touched and with what events.
pub fn match_orders(side: &BookSide, t: &Taker, max_base: u64, max_quote: u64) -> (r: Result<
    Matched,
    OpenBookError,
>)
    requires
        side.wf(),
        side.side == t.against,
    ensures
        r matches Ok(m) ==> match_from(side@, *t, start_state(max_base, max_quote)) == Ok::<
            MatchState,
            OpenBookError,
        >(m@),
        r matches Err(e) ==> match_from(side@, *t, start_state(max_base, max_quote)) == Err::<
            MatchState,
            OpenBookError,
        >(e),
        r matches Ok(m) ==> {
            &&& m.consumed <= side@.len()
            &&& m.consumed <= t.limit
            &&& m.events@.len() == m.consumed
            &&& events_follow(side@, m.events@)
            &&& filled_total(m.events@) + m.remaining_base == max_base
            &&& notional_total(m.events@) + m.remaining_quote == max_quote
            &&& (m.partial matches Some(q) ==> m.consumed >= 1 && 1 <= q < side@[m.consumed - 1].quantity)
        },
{
    let n = side.orders.len();
    let mut i: usize = 0;
    let mut rb: u64 = max_base;
    let mut rq: u64 = max_quote;
    let mut events: Vec<Event> = Vec::new();
    let mut partial: Option<u64> = None;
    let mut blocked = false;
    let mut done = false;
    let ghost start = start_state(max_base, max_quote);
    while !done
        invariant
            side.wf(),
            side.side == t.against,
            n == side@.len(),
            i <= n,
            i <= t.limit,
            start == start_state(max_base, max_quote),
            events@.len() == i,
            events_follow(side@, events@),
            filled_total(events@) + rb == max_base,
            notional_total(events@) + rq == max_quote,
            partial matches Some(q) ==> i >= 1 && 1 <= q < side@[i - 1].quantity,
            match_from(
                side@,
                *t,
                MatchState {
                    consumed: i as int,
                    remaining_base: rb,
                    remaining_quote: rq,
                    events: events@,
                    partial,
                    blocked,
                },
            ) == match_from(side@, *t, start),
            done ==> match_from(side@, *t, start) == Ok::<MatchState, OpenBookError>(
                MatchState {
                    consumed: i as int,
                    remaining_base: rb,
                    remaining_quote: rq,
                    events: events@,
                    partial,
                    blocked,
                },
            ),
        decreases (if done { 0int } else { 1int }), n - i,
    {
        let ghost st = MatchState {
            consumed: i as int,
            remaining_base: rb,
            remaining_quote: rq,
            events: events@,
            partial,
            blocked,
        };
        if i >= n || i >= t.limit as usize || rb == 0 || partial.is_some() || blocked {
            done = true;
        } else {
            let o = side.orders[i];
            assert(o == side@[i as int]);
            assert(o.price >= 1 && o.quantity >= 1);
            if !price_crosses(t.against, o.price, t.limit_price) {
                done = true;
            } else if o.is_expired(t.now_ts) || (!t.post_only && o.owner == t.owner && matches!(
                t.self_trade,
                SelfTradeBehavior::CancelProvide
            )) {
                let e = Event::Out { owner: o.owner, seq: o.seq, quantity: o.quantity };
                proof {
                    lemma_totals_push(events@, e);
                }
                events.push(e);
                i += 1;
                assert(events@ == after_out(st, o).events);
            } else if t.post_only {
                blocked = true;
                done = true;
            } else if o.owner == t.owner && matches!(
                t.self_trade,
                SelfTradeBehavior::AbortTransaction
            ) {
                return Err(OpenBookError::SelfTradeRejected);
            } else {
                let q = min_of(min_of(rb, o.quantity), rq / o.price);
                if q == 0 {
                    done = true;
                } else {
                    assert(q * o.price <= rq) by (nonlinear_arith)
                        requires
                            q <= rq / o.price,
                            o.price >= 1,
                    ;
                    let cost: u64 = q * o.price;
                    let e = Event::Fill {
                        maker: o.owner,
                        maker_seq: o.seq,
                        taker: t.owner,
                        price: o.price,
                        quantity: q,
                        maker_fee: t.maker_fee,
                        taker_fee: t.taker_fee,
                    };
                    proof {
                        lemma_totals_push(events@, e);
                    }
                    events.push(e);
                    rb = rb - q;
                    rq = rq - cost;
                    if q < o.quantity {
                        partial = Some(o.quantity - q);
                    }
                    i += 1;
                    assert(events@ == after_fill(st, *t, o, q).events);
                }
            }
        }
    }
    Ok(Matched { consumed: i, remaining_base: rb, remaining_quote: rq, events, partial, blocked })
}

/// Appending an event adds its quantity, and its quantity times its price, to
/// the totals.
pub proof fn lemma_totals_push(events: Seq<Event>, e: Event)
    ensures
        filled_total(events.push(e)) == filled_total(events) + e.filled(),
        notional_total(events.push(e)) == notional_total(events) + match e {
            Event::Fill { price, quantity, .. } => (quantity * price) as nat,
            Event::Out { .. } => 0,
        },
{
    assert(events.push(e).drop_last() =~= events);
    assert(events.push(e).last() == e);
}

/// From any state that has touched a prefix of the side, the walk goes on to
/// touch a longer prefix: one event per touched order, in book order, each
/// fill at the resting order's price and for no more than rests. What the
/// taker no longer wants is exactly what the new fills traded.
pub proof fn lemma_walk_takes_front(side: Seq<RestingOrder>, t: Taker, st: MatchState)
    requires
        forall|i: int| 0 <= i < side.len() ==> #[trigger] side[i].price >= 1 && side[i].quantity >= 1,
        0 <= st.consumed <= side.len(),
        st.events.len() == st.consumed,
        events_follow(side, st.events),
    ensures
        match_from(side, t, st) matches Ok(m) ==> {
            &&& st.consumed <= m.consumed <= side.len()
            &&& m.events.len() == m.consumed
            &&& events_follow(side, m.events)
            &&& filled_total(m.events) + m.remaining_base == filled_total(st.events)
                + st.remaining_base
            &&& notional_total(m.events) + m.remaining_quote == notional_total(st.events)
                + st.remaining_quote
        },
    decreases side.len() - st.consumed,
{
    if !walk_done(side, t, st) {
        let o = side[st.consumed];
        assert(o.price >= 1 && o.quantity >= 1);
        let out = Event::Out { owner: o.owner, seq: o.seq, quantity: o.quantity };
        let q = trade_quantity(st.remaining_base, st.remaining_quote, o);
        if !crosses(t.against, o.price, t.limit_price) {
        } else if o.expired_at(t.now_ts) || (!t.post_only && o.owner == t.owner && t.self_trade
            == SelfTradeBehavior::CancelProvide) {
            lemma_totals_push(st.events, out);
            lemma_walk_takes_front(side, t, after_out(st, o));
        } else if t.post_only {
        } else if o.owner == t.owner && t.self_trade == SelfTradeBehavior::AbortTransaction {
        } else if q > 0 {
            assert(q * o.price <= st.remaining_quote) by (nonlinear_arith)
                requires
                    q <= st.remaining_quote / o.price,
                    o.price >= 1,
            ;
            let fill = Event::Fill {
                maker: o.owner,
                maker_seq: o.seq,
                taker: t.owner,
                price: o.price,
                quantity: q,
                maker_fee: t.maker_fee,
                taker_fee: t.taker_fee,
            };
            lemma_totals_push(st.events, fill);
            lemma_walk_takes_front(side, t, after_fill(st, t, o, q));
        }
    }
}

/// Price-time priority. Of two resting orders that one walk touches, the one
/// touched first has the strictly better price, or the same price and the
/// earlier sequence number; and the events name them in that order.
pub proof fn lemma_match_price_time_priority(
    side: BookSide,
    t: Taker,
    max_base: u64,
    max_quote: u64,
    i: int,
    j: int,
)
    requires
        side.wf(),
        match_from(side@, t, start_state(max_base, max_quote)).is_ok(),
        0 <= i < j < match_from(side@, t, start_state(max_base, max_quote)).unwrap().consumed,
    ensures
        ({
            let m = match_from(side@, t, start_state(max_base, max_quote)).unwrap();
            &&& j < m.events.len() <= side@.len()
            &&& m.events[i].seq() == side@[i].seq
            &&& m.events[j].seq() == side@[j].seq
            &&& goes_before(side.side, side@[i], side@[j])
        }),
{
    lemma_walk_takes_front(side@, t, start_state(max_base, max_quote));
}

/// Conservation. The base lots that the taker took are the sum of the
/// quantities of the fills, each of which is what its maker gave; and the
/// quote lots spent are the sum of quantity times price over the fills.
pub proof fn lemma_match_conserves(side: BookSide, t: Taker, max_base: u64, max_quote: u64)
    requires
        side.wf(),
        match_from(side@, t, start_state(max_base, max_quote)).is_ok(),
    ensures
        ({
            let m = match_from(side@, t, start_state(max_base, max_quote)).unwrap();
            &&& filled_total(m.events) == max_base - m.remaining_base
            &&& notional_total(m.events) == max_quote - m.remaining_quote
        }),
{
    lemma_walk_takes_front(side@, t, start_state(max_base, max_quote));
}

} // verus!
