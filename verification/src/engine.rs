use vstd::prelude::*;
use crate::book::{crosses, flip, goes_before, price_crosses, BookSide, Orderbook};
use crate::error::OpenBookError;
use crate::event_heap::{pushed_events, pushed_ledger, Event, EventHeap};
use crate::market::{fee_of, maker_fee_of, native_of, quote_budget, Market};
use crate::matching::{
    after_fill, after_out, events_follow, filled_total, lemma_totals_push, lemma_walk_takes_front,
    match_from, match_orders, min_of, min_u64, notional_total, start_state, trade_quantity,
    walk_done, MatchState, Matched, Taker,
};
use crate::order::SelfTradeBehavior;
use crate::order::{make_order_id, order_id_of, Order, OrderType, RestingOrder, Side};
use crate::position::Position;

verus! {

/// What an order came to, in native units.
#[derive(Clone, Copy, Debug, PartialEq, Eq, Structural)]
pub struct OrderOutcome {
    /// Identifier of the remainder that rests in the book, if one does.
    pub order_id: Option<u128>,
    pub posted_base_native: u64,
    pub posted_quote_native: u64,
    pub total_base_taken_native: u64,
    pub total_quote_taken_native: u64,
    pub taker_fees: u64,
    pub maker_fees: u64,
}

/// Everything an order will change, worked out before anything is changed.
pub struct Plan {
    pub matched: Matched,
    /// The remainder that will rest, if any.
    pub posted: Option<RestingOrder>,
    pub outcome: OrderOutcome,
    /// The taker's position after the trades and the posting.
    pub position: Position,
    /// The market after the posting.
    pub market: Market,
}

/// A plan as a mathematical value.
pub struct PlanView {
    pub m: MatchState,
    pub posted: Option<RestingOrder>,
    pub outcome: OrderOutcome,
    pub position: Position,
    pub market: Market,
}

impl View for Plan {
    type V = PlanView;

    open spec fn view(&self) -> PlanView {
        PlanView {
            m: self.matched@,
            posted: self.posted,
            outcome: self.outcome,
            position: self.position,
            market: self.market,
        }
    }
}

pub fn other_side(side: Side) -> (r: Side)
    ensures
        r == flip(side),
{
    match side {
        Side::Bid => Side::Ask,
        Side::Ask => Side::Bid,
    }
}

/// The matching parameters of `order` placed by `owner`.
pub open spec fn taker_of(order: Order, market: Market, owner: usize, now_ts: u64, limit: u8) -> Taker {
    Taker {
        owner,
        against: flip(order.side),
        limit_price: order.effective_price(),
        self_trade: order.self_trade_behavior,
        post_only: order.order_type == OrderType::PostOnly,
        now_ts,
        limit,
        maker_fee: market.maker_fee,
        taker_fee: market.taker_fee,
    }
}

/// The quote lots that `order` may trade and post: for a bid its bound less
/// the room for the taker fee, for an ask, whose fee comes out of the
/// proceeds, the bound itself.
pub open spec fn quote_limit(order: Order, market: Market) -> u64 {
    match order.side {
        Side::Bid => quote_budget(order.max_quote_lots_including_fees as u64, market.taker_fee),
        Side::Ask => order.max_quote_lots_including_fees as u64,
    }
}

/// True where the remainder may rest: the policy allows it, the order has not
/// itself expired, the walk did not end on an order that still crosses, and
/// no crossing order is left in front.
pub open spec fn may_post(order: Order, opp: Seq<RestingOrder>, t: Taker, m: MatchState) -> bool {
    &&& order.may_rest()
    &&& !(order.expiry_ts != 0 && order.expiry_ts <= t.now_ts)
    &&& !m.blocked
    &&& m.partial.is_none()
    &&& (m.consumed >= opp.len() || !crosses(t.against, opp[m.consumed].price, t.limit_price))
}

/// Base lots of the remainder that rests: what is still wanted, as far as the
/// remaining quote lots pay for it at the limit price.
pub open spec fn posted_lots(order: Order, opp: Seq<RestingOrder>, t: Taker, m: MatchState) -> u64 {
    if may_post(order, opp, t, m) {
        min_u64(m.remaining_base, m.remaining_quote / t.limit_price)
    } else {
        0
    }
}

/// The amounts of an order that took `max_base - m.remaining_base` base lots
/// for `max_quote - m.remaining_quote` quote lots and rests `posted` lots at
/// `price`. Fails where a native amount exceeds 64 bits.
pub open spec fn outcome_of(
    order: Order,
    market: Market,
    max_base: u64,
    max_quote: u64,
    m: MatchState,
    posted: u64,
    price: u64,
) -> Result<OrderOutcome, OpenBookError> {
    let bt = native_of((max_base - m.remaining_base) as u64, market.base_lot_size);
    let qt = native_of((max_quote - m.remaining_quote) as u64, market.quote_lot_size);
    let pb = if order.side == Side::Ask {
        native_of(posted, market.base_lot_size)
    } else {
        Some(0u64)
    };
    let pq = if order.side == Side::Bid {
        native_of((posted * price) as u64, market.quote_lot_size)
    } else {
        Some(0u64)
    };
    if bt.is_some() && qt.is_some() && pb.is_some() && pq.is_some() {
        Ok(
            OrderOutcome {
                order_id: if posted > 0 {
                    Some(order_id_of(price, market.seq_num))
                } else {
                    None
                },
                posted_base_native: pb.unwrap(),
                posted_quote_native: pq.unwrap(),
                total_base_taken_native: bt.unwrap(),
                total_quote_taken_native: qt.unwrap(),
                taker_fees: fee_of(qt.unwrap() as int, market.taker_fee as int) as u64,
                maker_fees: maker_fee_of(pq.unwrap(), market.maker_fee) as u64,
            },
        )
    } else {
        Err(OpenBookError::NumericOverflow)
    }
}

/// One more where the order rests, else none.
pub open spec fn rests(out: OrderOutcome) -> int {
    if out.order_id.is_some() {
        1
    } else {
        0
    }
}

/// The taker's position after the order: a bid frees the base bought and
/// locks the quote posted with its maker fee; an ask frees the quote sold,
/// less the taker fee, and locks the base posted. An order that rests counts
/// among the open orders of its side. `None` where a balance or a count
/// exceeds 64 bits.
pub open spec fn credited(p: Position, side: Side, out: OrderOutcome) -> Option<Position> {
    match side {
        Side::Bid => if p.base_free_native + out.total_base_taken_native > u64::MAX
            || p.quote_locked_native + out.posted_quote_native + out.maker_fees > u64::MAX
            || p.bids_count + rests(out) > u64::MAX {
            None
        } else {
            Some(
                Position {
                    base_free_native: (p.base_free_native + out.total_base_taken_native) as u64,
                    quote_locked_native: (p.quote_locked_native + out.posted_quote_native
                        + out.maker_fees) as u64,
                    bids_count: (p.bids_count + rests(out)) as u64,
                    ..p
                },
            )
        },
        Side::Ask => if p.quote_free_native + out.total_quote_taken_native - out.taker_fees
            > u64::MAX || p.base_locked_native + out.posted_base_native > u64::MAX || p.asks_count
            + rests(out) > u64::MAX {
            None
        } else {
            Some(
                Position {
                    quote_free_native: (p.quote_free_native + out.total_quote_taken_native
                        - out.taker_fees) as u64,
                    base_locked_native: (p.base_locked_native + out.posted_base_native) as u64,
                    asks_count: (p.asks_count + rests(out)) as u64,
                    ..p
                },
            )
        },
    }
}

/// The plan for `order`, placed by `owner` with position `position`, against
/// the resting orders `opp` of the other side; or the error that rejects it.
pub open spec fn plan_of(
    opp: Seq<RestingOrder>,
    own_len: nat,
    own_cap: usize,
    heap_cap: usize,
    order: Order,
    market: Market,
    position: Position,
    owner: usize,
    now_ts: u64,
    limit: u8,
) -> Result<PlanView, OpenBookError> {
    if !order.valid() {
        Err(OpenBookError::InvalidInputLots)
    } else {
        let t = taker_of(order, market, owner, now_ts, limit);
        let mb = order.max_base_lots as u64;
        let mq = quote_limit(order, market);
        match match_from(opp, t, start_state(mb, mq)) {
            Err(e) => Err(e),
            Ok(m0) => {
                let m = if order.order_type == OrderType::FillOrKill && m0.remaining_base > 0 {
                    start_state(mb, mq)
                } else {
                    m0
                };
                let posted = posted_lots(order, opp, t, m);
                if m.events.len() > 0 && heap_cap == 0 {
                    Err(OpenBookError::QueueFull)
                } else if posted > 0 && own_len >= own_cap {
                    Err(OpenBookError::OrderBookFull)
                } else if posted > 0 && market.seq_num == u64::MAX {
                    Err(OpenBookError::NumericOverflow)
                } else {
                    match outcome_of(order, market, mb, mq, m, posted, t.limit_price) {
                        Err(e) => Err(e),
                        Ok(out) => match credited(position, order.side, out) {
                            None => Err(OpenBookError::NumericOverflow),
                            Some(p) => Ok(
                                PlanView {
                                    m,
                                    posted: if posted > 0 {
                                        Some(
                                            RestingOrder {
                                                owner,
                                                seq: market.seq_num,
                                                price: t.limit_price,
                                                quantity: posted,
                                                client_order_id: order.client_order_id,
                                                timestamp: now_ts,
                                                expiry_ts: order.expiry_ts,
                                            },
                                        )
                                    } else {
                                        None
                                    },
                                    outcome: out,
                                    position: p,
                                    market: Market {
                                        seq_num: if posted > 0 {
                                            (market.seq_num + 1) as u64
                                        } else {
                                            market.seq_num
                                        },
                                        ..market
                                    },
                                },
                            ),
                        },
                    }
                }
            },
        }
    }
}

/// The side that `order` trades against.
pub open spec fn opp_side(book: &Orderbook, side: Side) -> BookSide {
    match side {
        Side::Bid => book.asks,
        Side::Ask => book.bids,
    }
}

/// The side on which a remainder of `order` rests.
pub open spec fn own_side(book: &Orderbook, side: Side) -> BookSide {
    match side {
        Side::Bid => book.bids,
        Side::Ask => book.asks,
    }
}

/// The plan of `order` against `book`, as `plan_of` gives it.
pub open spec fn plan_for(
    book: &Orderbook,
    heap: &EventHeap,
    order: Order,
    market: Market,
    position: Position,
    owner: usize,
    now_ts: u64,
    limit: u8,
) -> Result<PlanView, OpenBookError> {
    plan_of(
        opp_side(book, order.side)@,
        own_side(book, order.side)@.len(),
        own_side(book, order.side).capacity,
        heap.capacity,
        order,
        market,
        position,
        owner,
        now_ts,
        limit,
    )
}

fn credit(p: &Position, side: Side, out: &OrderOutcome) -> (r: Option<Position>)
    requires
        out.taker_fees <= out.total_quote_taken_native,
    ensures
        r == credited(*p, side, *out),
{
    let resting: u64 = if out.order_id.is_some() {
        1
    } else {
        0
    };
    match side {
        Side::Bid => {
            let base = p.base_free_native.checked_add(out.total_base_taken_native);
            let locked = match p.quote_locked_native.checked_add(out.posted_quote_native) {
                Some(l) => l.checked_add(out.maker_fees),
                None => None,
            };
            let count = p.bids_count.checked_add(resting);
            match (base, locked, count) {
                (Some(b), Some(l), Some(c)) => Some(
                    Position { base_free_native: b, quote_locked_native: l, bids_count: c, ..*p },
                ),
                _ => None,
            }
        },
        Side::Ask => {
            let proceeds: u64 = out.total_quote_taken_native - out.taker_fees;
            let quote = p.quote_free_native.checked_add(proceeds);
            let locked = p.base_locked_native.checked_add(out.posted_base_native);
            let count = p.asks_count.checked_add(resting);
            match (quote, locked, count) {
                (Some(q), Some(l), Some(c)) => Some(
                    Position { quote_free_native: q, base_locked_native: l, asks_count: c, ..*p },
                ),
                _ => None,
            }
        },
    }
}

fn amounts(
    order: &Order,
    market: &Market,
    max_base: u64,
    max_quote: u64,
    m: &Matched,
    posted: u64,
    price: u64,
) -> (r: Result<OrderOutcome, OpenBookError>)
    requires
        market.wf(),
        m.remaining_base <= max_base,
        m.remaining_quote <= max_quote,
        posted * price <= u64::MAX,
    ensures
        r == outcome_of(*order, *market, max_base, max_quote, m@, posted, price),
        r matches Ok(out) ==> out.taker_fees <= out.total_quote_taken_native,
{
    let bt = market.base_lots_to_native(max_base - m.remaining_base);
    let qt = market.quote_lots_to_native(max_quote - m.remaining_quote);
    let pb = match order.side {
        Side::Ask => market.base_lots_to_native(posted),
        Side::Bid => Some(0u64),
    };
    let pq = match order.side {
        Side::Bid => market.quote_lots_to_native(posted * price),
        Side::Ask => Some(0u64),
    };
    match (bt, qt, pb, pq) {
        (Some(bt), Some(qt), Some(pb), Some(pq)) => Ok(
            OrderOutcome {
                order_id: if posted > 0 {
                    Some(make_order_id(price, market.seq_num))
                } else {
                    None
                },
                posted_base_native: pb,
                posted_quote_native: pq,
                total_base_taken_native: bt,
                total_quote_taken_native: qt,
                taker_fees: market.taker_fees_ceil(qt),
                maker_fees: market.maker_fees_ceil(pq),
            },
        ),
        _ => Err(OpenBookError::NumericOverflow),
    }
}

/// Works out what `order` will do, changing nothing.
pub fn plan_order(
    book: &Orderbook,
    heap: &EventHeap,
    order: &Order,
    market: &Market,
    position: &Position,
    owner: usize,
    now_ts: u64,
    limit: u8,
) -> (r: Result<Plan, OpenBookError>)
    requires
        book.wf(),
        market.wf(),
    ensures
        r matches Ok(p) ==> plan_for(book, heap, *order, *market, *position, owner, now_ts, limit)
            == Ok::<PlanView, OpenBookError>(p@),
        r matches Err(e) ==> plan_for(book, heap, *order, *market, *position, owner, now_ts, limit)
            == Err::<PlanView, OpenBookError>(e),
        r matches Ok(p) ==> plan_fits(book, heap, order.side, *market, p@),
{
    if !order.is_valid() {
        return Err(OpenBookError::InvalidInputLots);
    }
    let price = order.limit_price();
    let t = Taker {
        owner,
        against: other_side(order.side),
        limit_price: price,
        self_trade: order.self_trade_behavior,
        post_only: matches!(order.order_type, OrderType::PostOnly),
        now_ts,
        limit,
        maker_fee: market.maker_fee,
        taker_fee: market.taker_fee,
    };
    let mb: u64 = order.max_base_lots as u64;
    let mq: u64 = match order.side {
        Side::Bid => market.subtract_taker_fees(order.max_quote_lots_including_fees as u64),
        Side::Ask => order.max_quote_lots_including_fees as u64,
    };
    let (opp, own) = match order.side {
        Side::Bid => (&book.asks, &book.bids),
        Side::Ask => (&book.bids, &book.asks),
    };
    let m0 = match_orders(opp, &t, mb, mq)?;
    let m = if matches!(order.order_type, OrderType::FillOrKill) && m0.remaining_base > 0 {
        Matched {
            consumed: 0,
            remaining_base: mb,
            remaining_quote: mq,
            events: Vec::new(),
            partial: None,
            blocked: false,
        }
    } else {
        m0
    };
    let clear = m.consumed >= opp.orders.len() || !price_crosses(
        t.against,
        opp.orders[m.consumed].price,
        price,
    );
    let live = order.expiry_ts == 0 || order.expiry_ts > now_ts;
    let posted: u64 = if order.can_rest() && live && !m.blocked && m.partial.is_none() && clear {
        min_of(m.remaining_base, m.remaining_quote / price)
    } else {
        0
    };
    assert(posted * price <= m.remaining_quote) by (nonlinear_arith)
        requires
            posted <= m.remaining_quote / price,
            price >= 1,
    ;
    if m.events.len() > 0 && heap.capacity == 0 {
        return Err(OpenBookError::QueueFull);
    }
    if posted > 0 && own.orders.len() >= own.capacity {
        return Err(OpenBookError::OrderBookFull);
    }
    if posted > 0 && market.seq_num == u64::MAX {
        return Err(OpenBookError::NumericOverflow);
    }
    let out = amounts(order, market, mb, mq, &m, posted, price)?;
    let p = match credit(position, order.side, &out) {
        Some(p) => p,
        None => {
            return Err(OpenBookError::NumericOverflow);
        },
    };
    let resting = if posted > 0 {
        Some(
            RestingOrder {
                owner,
                seq: market.seq_num,
                price,
                quantity: posted,
                client_order_id: order.client_order_id,
                timestamp: now_ts,
                expiry_ts: order.expiry_ts,
            },
        )
    } else {
        None
    };
    let new_market = Market {
        seq_num: if posted > 0 {
            market.seq_num + 1
        } else {
            market.seq_num
        },
        ..*market
    };
    Ok(Plan { matched: m, posted: resting, outcome: out, position: p, market: new_market })
}

/// What a plan owes to the structures it will be applied to.
pub open spec fn plan_fits(
    book: &Orderbook,
    heap: &EventHeap,
    side: Side,
    market: Market,
    p: PlanView,
) -> bool {
    let opp = opp_side(book, side)@;
    let own = own_side(book, side);
    &&& 0 <= p.m.consumed <= opp.len()
    &&& p.m.events.len() == p.m.consumed
    &&& (p.m.partial matches Some(q) ==> p.m.consumed >= 1 && 1 <= q < opp[p.m.consumed - 1].quantity)
    &&& (p.m.events.len() > 0 ==> heap.capacity > 0)
    &&& (p.posted matches Some(o) ==> own@.len() < own.capacity && o.price >= 1 && o.quantity >= 1
        && o.seq == market.seq_num && market.seq_num < u64::MAX)
    &&& p.market.seq_num == (if p.posted.is_some() {
        (market.seq_num + 1) as u64
    } else {
        market.seq_num
    })
    &&& p.market.wf()
    &&& p.outcome.order_id.is_some() == p.posted.is_some()
}

/// A side after a matching walk touched its first `consumed` orders: they are
/// gone, but for the last where it was only partly filled, which stays at the
/// front with what is left of it.
pub open spec fn side_after(side: Seq<RestingOrder>, consumed: int, partial: Option<u64>) -> Seq<
    RestingOrder,
> {
    match partial {
        Some(q) => seq![RestingOrder { quantity: q, ..side[consumed - 1] }] + side.skip(consumed),
        None => side.skip(consumed),
    }
}

/// `after` is `before` with `o` put in at some place.
pub open spec fn inserted(before: Seq<RestingOrder>, after: Seq<RestingOrder>, o: RestingOrder) -> bool {
    exists|pos: int| 0 <= pos <= before.len() && after == #[trigger] before.insert(pos, o)
}

/// The queue and the ledger after the events `new` were pushed one by one.
pub open spec fn push_all(events: Seq<Event>, cap: usize, ledger: Seq<Position>, new: Seq<Event>) -> (
    Seq<Event>,
    Seq<Position>,
)
    decreases new.len(),
{
    if new.len() == 0 {
        (events, ledger)
    } else {
        let before = push_all(events, cap, ledger, new.drop_last());
        (pushed_events(before.0, cap, new.last()), pushed_ledger(before.0, cap, before.1))
    }
}

/// The ledger after the taker's own penalty, which is due where the request
/// left the queue longer than it found it.
pub open spec fn taker_penalized(ledger: Seq<Position>, owner: usize, grew: bool) -> Seq<Position> {
    if grew && owner < ledger.len() {
        ledger.update(owner as int, ledger[owner as int].penalized())
    } else {
        ledger
    }
}

/// The state after a plan was applied: the touched orders left the other
/// side, the remainder rests on the order's own side, the market and the
/// taker's position took their planned values, and the events were queued.
/// With `penalty` the taker also takes a penalty where the queue grew.
pub open spec fn applied(
    book0: &Orderbook,
    heap0: &EventHeap,
    ledger0: Seq<Position>,
    side: Side,
    owner: usize,
    p: PlanView,
    penalty: bool,
    book1: &Orderbook,
    heap1: &EventHeap,
    ledger1: Seq<Position>,
    market1: Market,
) -> bool {
    let pushed = push_all(heap0@, heap0.capacity, ledger0.update(owner as int, p.position), p.m.events);
    &&& book1.wf()
    &&& book1.bids.capacity == book0.bids.capacity
    &&& book1.asks.capacity == book0.asks.capacity
    &&& opp_side(book1, side)@ == side_after(opp_side(book0, side)@, p.m.consumed, p.m.partial)
    &&& match p.posted {
        Some(o) => inserted(own_side(book0, side)@, own_side(book1, side)@, o),
        None => own_side(book1, side)@ == own_side(book0, side)@,
    }
    &&& market1 == p.market
    &&& book1.seqs_below(market1.seq_num)
    &&& heap1.capacity == heap0.capacity
    &&& heap1.wf()
    &&& heap1@ == pushed.0
    &&& ledger1 == taker_penalized(pushed.1, owner, penalty && pushed.0.len() > heap0@.len())
}

fn shrink_side(side: &mut BookSide, consumed: usize, partial: Option<u64>)
    requires
        old(side).wf(),
        consumed <= old(side)@.len(),
        partial matches Some(q) ==> consumed >= 1 && 1 <= q < old(side)@[consumed - 1].quantity,
    ensures
        final(side).side == old(side).side,
        final(side).capacity == old(side).capacity,
        final(side).wf(),
        final(side)@ == side_after(old(side)@, consumed as int, partial),
{
    let n = side.orders.len();
    let mut rest: Vec<RestingOrder> = Vec::new();
    let ghost s = side@;
    let ghost head: Seq<RestingOrder> = Seq::empty();
    match partial {
        Some(q) => {
            let o = side.orders[consumed - 1];
            rest.push(RestingOrder { quantity: q, ..o });
            proof {
                head = seq![RestingOrder { quantity: q, ..s[consumed - 1] }];
            }
            assert(rest@ =~= head);
        },
        None => {},
    }
    let mut k: usize = consumed;
    while k < n
        invariant
            consumed <= k <= n,
            n == s.len(),
            s == side@,
            *side == *old(side),
            old(side).wf(),
            partial matches Some(q) ==> head == seq![RestingOrder { quantity: q, ..s[consumed - 1] }],
            partial.is_none() ==> head.len() == 0,
            rest@ == head + s.subrange(consumed as int, k as int),
        decreases n - k,
    {
        rest.push(side.orders[k]);
        assert(s.subrange(consumed as int, k + 1) =~= s.subrange(consumed as int, k as int).push(
            s[k as int],
        ));
        k += 1;
        assert(rest@ =~= head + s.subrange(consumed as int, k as int));
    }
    side.orders = rest;
    proof {
        let t = side@;
        let h = head.len() as int;
        assert(s.subrange(consumed as int, n as int) =~= s.skip(consumed as int));
        assert(t =~= side_after(s, consumed as int, partial));
        assert forall|i: int| 0 <= i < t.len() implies (#[trigger] t[i]).seq == s[consumed - h
            + i].seq && t[i].price == s[consumed - h + i].price && t[i].price >= 1 && t[i].quantity
            >= 1 by {
            if i >= h {
                assert(t[i] == s[consumed - h + i]);
            }
        }
        assert forall|i: int, j: int| 0 <= i < j < t.len() implies goes_before(
            side.side,
            t[i],
            t[j],
        ) by {
            assert(goes_before(side.side, s[consumed - h + i], s[consumed - h + j]));
        }
    }
}

/// What stays on a side after a walk arrived no later than what was there.
proof fn lemma_side_after_seqs(s: Seq<RestingOrder>, consumed: int, partial: Option<u64>, next: u64)
    requires
        0 <= consumed <= s.len(),
        partial.is_some() ==> consumed >= 1,
        forall|i: int| 0 <= i < s.len() ==> #[trigger] s[i].seq < next,
    ensures
        forall|i: int|
            0 <= i < side_after(s, consumed, partial).len() ==> #[trigger] side_after(
                s,
                consumed,
                partial,
            )[i].seq < next,
{
    let t = side_after(s, consumed, partial);
    let h: int = if partial.is_some() { 1 } else { 0 };
    assert forall|i: int| 0 <= i < t.len() implies #[trigger] t[i].seq < next by {
        assert(t[i].seq == s[consumed - h + i].seq);
    }
}

/// Pushing events keeps the queue within its capacity and neither adds a
/// position to the ledger nor takes one away.
pub proof fn lemma_push_all_bounds(
    events: Seq<Event>,
    cap: usize,
    ledger: Seq<Position>,
    new: Seq<Event>,
)
    requires
        events.len() <= cap,
        new.len() > 0 ==> cap > 0,
    ensures
        push_all(events, cap, ledger, new).0.len() <= cap,
        push_all(events, cap, ledger, new).0.len() >= events.len(),
        push_all(events, cap, ledger, new).1.len() == ledger.len(),
    decreases new.len(),
{
    if new.len() > 0 {
        lemma_push_all_bounds(events, cap, ledger, new.drop_last());
    }
}

fn push_events(heap: &mut EventHeap, ledger: &mut Vec<Position>, events: &Vec<Event>)
    requires
        old(heap).wf(),
        events@.len() > 0 ==> old(heap).capacity > 0,
    ensures
        final(heap).wf(),
        final(heap).capacity == old(heap).capacity,
        (final(heap)@, final(ledger)@) == push_all(
            old(heap)@,
            old(heap).capacity,
            old(ledger)@,
            events@,
        ),
{
    let n = events.len();
    let mut j: usize = 0;
    assert(events@.take(0) =~= Seq::<Event>::empty());
    while j < n
        invariant
            j <= n,
            n == events@.len(),
            heap.wf(),
            heap.capacity == old(heap).capacity,
            n > 0 ==> heap.capacity > 0,
            (heap@, ledger@) == push_all(
                old(heap)@,
                old(heap).capacity,
                old(ledger)@,
                events@.take(j as int),
            ),
        decreases n - j,
    {
        let e = events[j];
        proof {
            let next = events@.take(j + 1);
            assert(next.drop_last() =~= events@.take(j as int));
            assert(next.last() == e);
        }
        let _ = heap.push(e, ledger);
        j += 1;
    }
    assert(events@.take(n as int) =~= events@);
}

pub(crate) fn apply_plan(
    book: &mut Orderbook,
    heap: &mut EventHeap,
    ledger: &mut Vec<Position>,
    market: &mut Market,
    side: Side,
    owner: usize,
    plan: &Plan,
)
    requires
        old(book).wf(),
        old(heap).wf(),
        old(book).seqs_below(old(market).seq_num),
        owner < old(ledger)@.len(),
        plan_fits(old(book), old(heap), side, *old(market), plan@),
    ensures
        applied(
            old(book),
            old(heap),
            old(ledger)@,
            side,
            owner,
            plan@,
            false,
            final(book),
            final(heap),
            final(ledger)@,
            *final(market),
        ),
{
    let ghost next = market.seq_num;
    match side {
        Side::Bid => {
            shrink_side(&mut book.asks, plan.matched.consumed, plan.matched.partial);
            proof {
                lemma_side_after_seqs(old(book).asks@, plan.matched.consumed as int, plan.matched.partial, next);
            }
            if let Some(o) = plan.posted {
                proof {
                    if book.bids.has_key(o.price, o.seq) {
                        let i = choose|i: int|
                            0 <= i < book.bids@.len() && #[trigger] book.bids@[i].price == o.price
                                && book.bids@[i].seq == o.seq;
                        assert(book.bids@[i].seq < next);
                    }
                }
                let _ = book.bids.insert(o);
                assert(forall|i: int|
                    0 <= i < book.bids@.len() ==> #[trigger] book.bids@[i].seq <= next);
            }
        },
        Side::Ask => {
            shrink_side(&mut book.bids, plan.matched.consumed, plan.matched.partial);
            proof {
                lemma_side_after_seqs(old(book).bids@, plan.matched.consumed as int, plan.matched.partial, next);
            }
            if let Some(o) = plan.posted {
                proof {
                    if book.asks.has_key(o.price, o.seq) {
                        let i = choose|i: int|
                            0 <= i < book.asks@.len() && #[trigger] book.asks@[i].price == o.price
                                && book.asks@[i].seq == o.seq;
                        assert(book.asks@[i].seq < next);
                    }
                }
                let _ = book.asks.insert(o);
                assert(forall|i: int|
                    0 <= i < book.asks@.len() ==> #[trigger] book.asks@[i].seq <= next);
            }
        },
    }
    *market = plan.market;
    ledger.set(owner, plan.position);
    push_events(heap, ledger, &plan.matched.events);
}

impl Orderbook {
    /// Matches `order`, placed by the trader at `owner` in `ledger`, against
    /// the book, queues the events, rests the remainder where the policy
    /// allows it, and returns the amounts. A rejected order changes nothing.
    pub fn new_order(
        &mut self,
        order: &Order,
        market: &mut Market,
        heap: &mut EventHeap,
        ledger: &mut Vec<Position>,
        owner: usize,
        now_ts: u64,
        limit: u8,
    ) -> (r: Result<OrderOutcome, OpenBookError>)
        requires
            old(self).wf(),
            old(market).wf(),
            old(heap).wf(),
            old(self).seqs_below(old(market).seq_num),
        ensures
            owner >= old(ledger)@.len() ==> r == Err::<OrderOutcome, OpenBookError>(
                OpenBookError::UnknownAccount,
            ),
            owner < old(ledger)@.len() ==> match plan_for(
                old(self),
                old(heap),
                *order,
                *old(market),
                old(ledger)@[owner as int],
                owner,
                now_ts,
                limit,
            ) {
                Err(e) => r == Err::<OrderOutcome, OpenBookError>(e),
                Ok(p) => r == Ok::<OrderOutcome, OpenBookError>(p.outcome) && applied(
                    old(self),
                    old(heap),
                    old(ledger)@,
                    order.side,
                    owner,
                    p,
                    false,
                    final(self),
                    final(heap),
                    final(ledger)@,
                    *final(market),
                ),
            },
            r.is_err() ==> *final(self) == *old(self) && *final(market) == *old(market),
            r.is_err() ==> *final(heap) == *old(heap) && *final(ledger) == *old(ledger),
            final(self).wf(),
            final(market).wf(),
            final(heap).wf(),
            final(self).seqs_below(final(market).seq_num),
    {
        if owner >= ledger.len() {
            return Err(OpenBookError::UnknownAccount);
        }
        let position = ledger[owner];
        let plan = plan_order(self, heap, order, market, &position, owner, now_ts, limit)?;
        apply_plan(self, heap, ledger, market, order.side, owner, &plan);
        Ok(plan.outcome)
    }
}

/// What a planned order takes is what its fills traded: the native base taken
/// is the sum of the fill quantities in base lots, the native quote taken the
/// sum of quantity times price in quote lots. The events are about the first
/// resting orders of the other side, one each, in book order.
pub proof fn lemma_plan_conserves(
    opp: BookSide,
    own_len: nat,
    own_cap: usize,
    heap_cap: usize,
    order: Order,
    market: Market,
    position: Position,
    owner: usize,
    now_ts: u64,
    limit: u8,
)
    requires
        opp.wf(),
        plan_of(opp@, own_len, own_cap, heap_cap, order, market, position, owner, now_ts, limit).is_ok(),
    ensures
        ({
            let p = plan_of(
                opp@,
                own_len,
                own_cap,
                heap_cap,
                order,
                market,
                position,
                owner,
                now_ts,
                limit,
            ).unwrap();
            &&& p.outcome.total_base_taken_native == filled_total(p.m.events) * market.base_lot_size
            &&& p.outcome.total_quote_taken_native == notional_total(p.m.events)
                * market.quote_lot_size
            &&& p.m.events.len() == p.m.consumed
            &&& events_follow(opp@, p.m.events)
        }),
{
    let t = taker_of(order, market, owner, now_ts, limit);
    let start = start_state(order.max_base_lots as u64, quote_limit(order, market));
    lemma_walk_takes_front(opp@, t, start);
    assert(filled_total(start.events) == 0);
    assert(notional_total(start.events) == 0);
}

/// Base lots resting in a sequence of orders.
pub open spec fn resting_total(side: Seq<RestingOrder>) -> nat
    decreases side.len(),
{
    if side.len() == 0 {
        0
    } else {
        resting_total(side.drop_last()) + side.last().quantity as nat
    }
}

/// Base lots of the orders that a sequence of events took out of the book
/// without a trade.
pub open spec fn removed_total(events: Seq<Event>) -> nat
    decreases events.len(),
{
    if events.len() == 0 {
        0
    } else {
        removed_total(events.drop_last()) + match events.last() {
            Event::Out { quantity, .. } => quantity as nat,
            Event::Fill { .. } => 0,
        }
    }
}

/// What rests in two sequences laid end to end is what rests in each.
pub proof fn lemma_resting_total_concat(a: Seq<RestingOrder>, b: Seq<RestingOrder>)
    ensures
        resting_total(a + b) == resting_total(a) + resting_total(b),
    decreases b.len(),
{
    if b.len() == 0 {
        assert(a + b =~= a);
    } else {
        assert((a + b).drop_last() =~= a + b.drop_last());
        assert((a + b).last() == b.last());
        lemma_resting_total_concat(a, b.drop_last());
    }
}

/// The orders that a walk has touched held what its events account for: the
/// lots filled, the lots taken out without a trade, and what is left on a
/// partly filled order.
proof fn lemma_walk_accounts_for_touched(side: Seq<RestingOrder>, t: Taker, st: MatchState)
    requires
        forall|i: int| 0 <= i < side.len() ==> #[trigger] side[i].price >= 1 && side[i].quantity >= 1,
        0 <= st.consumed <= side.len(),
        st.partial.is_none(),
        resting_total(side.take(st.consumed)) == filled_total(st.events) + removed_total(st.events),
    ensures
        match_from(side, t, st) matches Ok(m) ==> {
            &&& st.consumed <= m.consumed <= side.len()
            &&& (m.partial matches Some(q) ==> m.consumed >= 1 && q < side[m.consumed - 1].quantity)
            &&& resting_total(side.take(m.consumed)) == filled_total(m.events) + removed_total(
                m.events,
            ) + (match m.partial {
                Some(q) => q as nat,
                None => 0,
            })
        },
    decreases side.len() - st.consumed,
{
    if !walk_done(side, t, st) {
        let o = side[st.consumed];
        assert(o.price >= 1 && o.quantity >= 1);
        assert(side.take(st.consumed + 1).drop_last() =~= side.take(st.consumed));
        assert(side.take(st.consumed + 1).last() == o);
        let q = trade_quantity(st.remaining_base, st.remaining_quote, o);
        if !crosses(t.against, o.price, t.limit_price) {
        } else if o.expired_at(t.now_ts) || (!t.post_only && o.owner == t.owner && t.self_trade
            == SelfTradeBehavior::CancelProvide) {
            let next = after_out(st, o);
            lemma_totals_push(st.events, next.events.last());
            assert(next.events.drop_last() =~= st.events);
            lemma_walk_accounts_for_touched(side, t, next);
        } else if t.post_only {
        } else if o.owner == t.owner && t.self_trade == SelfTradeBehavior::AbortTransaction {
        } else if q > 0 {
            let next = after_fill(st, t, o, q);
            lemma_totals_push(st.events, next.events.last());
            assert(next.events.drop_last() =~= st.events);
            if next.partial.is_none() {
                lemma_walk_accounts_for_touched(side, t, next);
            } else {
                assert(walk_done(side, t, next));
            }
        }
    }
}

/// Conservation in the book. What rested on a side before a walk is what
/// rests on it afterwards, plus the lots that the fills traded, plus the lots
/// of the orders taken out without a trade: no lot appears or is lost.
pub proof fn lemma_walk_conserves_book(side: BookSide, t: Taker, max_base: u64, max_quote: u64)
    requires
        side.wf(),
        match_from(side@, t, start_state(max_base, max_quote)).is_ok(),
    ensures
        ({
            let m = match_from(side@, t, start_state(max_base, max_quote)).unwrap();
            resting_total(side@) == resting_total(side_after(side@, m.consumed, m.partial))
                + filled_total(m.events) + removed_total(m.events)
        }),
{
    let s = side@;
    let start = start_state(max_base, max_quote);
    assert(s.take(0) =~= Seq::<RestingOrder>::empty());
    lemma_walk_accounts_for_touched(s, t, start);
    let m = match_from(s, t, start).unwrap();
    lemma_resting_total_concat(s.take(m.consumed), s.skip(m.consumed));
    assert(s.take(m.consumed) + s.skip(m.consumed) =~= s);
    match m.partial {
        Some(q) => {
            let head = seq![RestingOrder { quantity: q, ..s[m.consumed - 1] }];
            assert(head.len() == 1 && head.last().quantity == q);
            assert(head.drop_last().len() == 0);
            assert(resting_total(head.drop_last()) == 0);
            assert(resting_total(head) == q as nat);
            lemma_resting_total_concat(head, s.skip(m.consumed));
        },
        None => {},
    }
}

/// A bid never pays more quote for what it takes, taker fee included, than
/// its bound on quote lots including fees allows.
pub proof fn lemma_bid_within_quote_bound(
    opp: BookSide,
    own_len: nat,
    own_cap: usize,
    heap_cap: usize,
    order: Order,
    market: Market,
    position: Position,
    owner: usize,
    now_ts: u64,
    limit: u8,
)
    requires
        opp.wf(),
        market.wf(),
        order.side == Side::Bid,
        plan_of(opp@, own_len, own_cap, heap_cap, order, market, position, owner, now_ts, limit).is_ok(),
    ensures
        ({
            let p = plan_of(
                opp@,
                own_len,
                own_cap,
                heap_cap,
                order,
                market,
                position,
                owner,
                now_ts,
                limit,
            ).unwrap();
            p.outcome.total_quote_taken_native + p.outcome.taker_fees
                <= order.max_quote_lots_including_fees * market.quote_lot_size
        }),
{
    let p = plan_of(opp@, own_len, own_cap, heap_cap, order, market, position, owner, now_ts, limit).unwrap();
    let t = taker_of(order, market, owner, now_ts, limit);
    let bound = order.max_quote_lots_including_fees as int;
    let rate = market.taker_fee as int;
    let lot = market.quote_lot_size as int;
    let whole = bound * 1_000_000;
    let budget = whole / (1_000_000 + rate);
    assert(0 <= budget <= bound && budget * (1_000_000 + rate) <= bound * 1_000_000)
        by (nonlinear_arith)
        requires
            budget == whole / (1_000_000 + rate),
            whole == bound * 1_000_000,
            rate >= 0,
            bound >= 0,
    ;
    assert(quote_limit(order, market) == budget);
    lemma_walk_takes_front(opp@, t, start_state(order.max_base_lots as u64, quote_limit(order, market)));
    let taken = budget - p.m.remaining_quote;
    assert(0 <= taken <= budget);
    let native = p.outcome.total_quote_taken_native as int;
    assert(native == taken * lot);
    assert(native * (1_000_000 + rate) <= bound * lot * 1_000_000) by (nonlinear_arith)
        requires
            native == taken * lot,
            0 <= taken <= budget,
            budget * (1_000_000 + rate) <= bound * 1_000_000,
            lot >= 1,
            rate >= 0,
    ;
    let product = native * rate;
    assert(product + native * 1_000_000 == native * (1_000_000 + rate)) by (nonlinear_arith)
        requires
            product == native * rate,
    ;
    assert(0 <= product <= native * 1_000_000) by (nonlinear_arith)
        requires
            product == native * rate,
            0 <= rate <= 1_000_000,
            native >= 0,
    ;
    assert(fee_of(native, rate) == (product + 999_999) / 1_000_000);
    assert(p.outcome.taker_fees == fee_of(native, rate));
}

} // verus!
