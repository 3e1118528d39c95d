use openbook_v2::book::{BookSide, Orderbook};
use openbook_v2::engine::OrderOutcome;
use openbook_v2::error::OpenBookError;
use openbook_v2::event_heap::{Event, EventHeap};
use openbook_v2::market::{fee_ceil, Market};
use openbook_v2::matching::{match_orders, Taker};
use openbook_v2::order::{make_order_id, Order, OrderType, RestingOrder, SelfTradeBehavior, Side};
use openbook_v2::place_order::{place_order, settle_deposit};
use openbook_v2::position::Position;
use openbook_v2::transfer_fee::{amount_with_fee, TransferFeeTerms};

const BASE_VAULT: [u8; 32] = [11; 32];
const QUOTE_VAULT: [u8; 32] = [22; 32];
const BIG: i64 = 1_000_000_000;

fn market(taker_fee: u64, maker_fee: i64) -> Market {
    Market {
        base_lot_size: 1,
        quote_lot_size: 1,
        maker_fee,
        taker_fee,
        time_expiry: u64::MAX,
        base_deposit_total: 0,
        quote_deposit_total: 0,
        seq_num: 1,
        market_base_vault: BASE_VAULT,
        market_quote_vault: QUOTE_VAULT,
    }
}

fn order(side: Side, order_type: OrderType, price: i64, base: i64) -> Order {
    Order {
        side,
        order_type,
        price_lots: price,
        max_base_lots: base,
        max_quote_lots_including_fees: BIG,
        client_order_id: 7,
        self_trade_behavior: SelfTradeBehavior::DecrementTake,
        expiry_ts: 0,
    }
}

struct World {
    book: Orderbook,
    market: Market,
    heap: EventHeap,
    ledger: Vec<Position>,
}

fn world(taker_fee: u64, maker_fee: i64, book_cap: usize, heap_cap: usize) -> World {
    World {
        book: Orderbook::new(book_cap),
        market: market(taker_fee, maker_fee),
        heap: EventHeap::new(heap_cap),
        ledger: vec![Position::new(), Position::new(), Position::new()],
    }
}

fn place(w: &mut World, owner: usize, o: &Order, now: u64) -> Result<openbook_v2::place_order::Placed, OpenBookError> {
    let vault = match o.side {
        Side::Bid => QUOTE_VAULT,
        Side::Ask => BASE_VAULT,
    };
    place_order(&mut w.book, &mut w.market, &mut w.heap, &mut w.ledger, owner, vault, o, now, 10, None)
}

fn snapshot(w: &World) -> (Vec<RestingOrder>, Vec<RestingOrder>, Market, Vec<Event>, Vec<Position>) {
    (
        w.book.bids.orders.clone(),
        w.book.asks.orders.clone(),
        w.market,
        w.heap.events.clone(),
        w.ledger.clone(),
    )
}

#[test]
fn resting_ask_then_partial_bid() {
    let mut w = world(1000, 0, 8, 8);
    let maker = place(&mut w, 0, &order(Side::Ask, OrderType::Limit, 100, 5), 50).unwrap();
    assert_eq!(maker.order_id, Some((100u128 << 64) | 1));
    assert_eq!(maker.deposit_amount, 5);
    assert_eq!(w.market.base_deposit_total, 5);
    assert_eq!(w.market.seq_num, 2);
    assert_eq!(w.book.asks.orders.len(), 1);
    assert_eq!(w.book.asks.orders[0].seq, 1);
    assert_eq!(w.book.asks.orders[0].quantity, 5);
    assert_eq!(w.ledger[0].base_locked_native, 5);
    assert_eq!(w.heap.len(), 0);

    let taker = place(&mut w, 1, &order(Side::Bid, OrderType::Limit, 100, 3), 60).unwrap();
    assert_eq!(taker.order_id, None);
    assert_eq!(
        w.heap.events,
        vec![Event::Fill { maker: 0, maker_seq: 1, taker: 1, price: 100, quantity: 3, maker_fee: 0, taker_fee: 1000 }]
    );
    assert_eq!(w.book.asks.orders.len(), 1);
    assert_eq!(w.book.asks.orders[0].quantity, 2);
    assert_eq!(w.book.asks.orders[0].price, 100);
    assert_eq!(w.book.bids.orders.len(), 0);
    assert_eq!(taker.outcome.total_base_taken_native, 3);
    assert_eq!(taker.outcome.total_quote_taken_native, 300);
    assert_eq!(taker.outcome.taker_fees, 1);
    assert_eq!(taker.outcome.maker_fees, 0);
    assert_eq!(taker.deposit_amount, 301);
    assert_eq!(w.market.quote_deposit_total, 301);
    assert_eq!(w.market.base_deposit_total, 5);
    assert_eq!(w.ledger[1].base_free_native, 3);
    assert_eq!(w.ledger[1].penalty_heap_count, 1);
    assert_eq!(w.ledger[0].penalty_heap_count, 0);
}

#[test]
fn better_prices_first_then_earlier_orders() {
    let mut w = world(0, 0, 8, 8);
    place(&mut w, 0, &order(Side::Ask, OrderType::Limit, 102, 1), 1).unwrap();
    place(&mut w, 0, &order(Side::Ask, OrderType::Limit, 100, 1), 1).unwrap();
    place(&mut w, 2, &order(Side::Ask, OrderType::Limit, 101, 1), 1).unwrap();
    place(&mut w, 2, &order(Side::Ask, OrderType::Limit, 100, 1), 1).unwrap();
    let keys: Vec<(u64, u64)> = w.book.asks.orders.iter().map(|o| (o.price, o.seq)).collect();
    assert_eq!(keys, vec![(100, 2), (100, 4), (101, 3), (102, 1)]);
    place(&mut w, 1, &order(Side::Bid, OrderType::ImmediateOrCancel, 101, 3), 2).unwrap();
    assert_eq!(
        w.heap.events,
        vec![
            Event::Fill { maker: 0, maker_seq: 2, taker: 1, price: 100, quantity: 1, maker_fee: 0, taker_fee: 0 },
            Event::Fill { maker: 2, maker_seq: 4, taker: 1, price: 100, quantity: 1, maker_fee: 0, taker_fee: 0 },
            Event::Fill { maker: 2, maker_seq: 3, taker: 1, price: 101, quantity: 1, maker_fee: 0, taker_fee: 0 },
        ]
    );
    assert_eq!(w.book.asks.orders.len(), 1);
    assert_eq!(w.book.asks.orders[0].price, 102);
}

#[test]
fn bids_rank_by_descending_price() {
    let mut w = world(0, 0, 8, 8);
    place(&mut w, 0, &order(Side::Bid, OrderType::Limit, 98, 1), 1).unwrap();
    place(&mut w, 0, &order(Side::Bid, OrderType::Limit, 99, 1), 1).unwrap();
    place(&mut w, 0, &order(Side::Bid, OrderType::Limit, 99, 2), 1).unwrap();
    let keys: Vec<(u64, u64)> = w.book.bids.orders.iter().map(|o| (o.price, o.seq)).collect();
    assert_eq!(keys, vec![(99, 2), (99, 3), (98, 1)]);
    let sold = place(&mut w, 1, &order(Side::Ask, OrderType::Market, 0, 2), 2).unwrap();
    assert_eq!(sold.order_id, None);
    assert_eq!(sold.outcome.total_quote_taken_native, 198);
    assert_eq!(sold.deposit_amount, 2);
    assert_eq!(w.ledger[1].quote_free_native, 198);
    assert_eq!(w.book.bids.orders[0].quantity, 1);
    assert_eq!(w.book.bids.orders[0].seq, 3);
}

#[test]
fn bid_remainder_rests_with_maker_fee() {
    let mut w = world(2000, 1000, 8, 8);
    place(&mut w, 0, &order(Side::Ask, OrderType::Limit, 100, 2), 1).unwrap();
    let r = place(&mut w, 1, &order(Side::Bid, OrderType::Limit, 100, 5), 2).unwrap();
    assert_eq!(r.order_id, Some(make_order_id(100, 2)));
    assert_eq!(r.outcome.total_quote_taken_native, 200);
    assert_eq!(r.outcome.posted_quote_native, 300);
    assert_eq!(r.outcome.taker_fees, 1);
    assert_eq!(r.outcome.maker_fees, 1);
    assert_eq!(r.deposit_amount, 502);
    assert_eq!(w.book.bids.orders.len(), 1);
    assert_eq!(w.book.bids.orders[0].quantity, 3);
    assert_eq!(w.book.bids.orders[0].owner, 1);
    assert_eq!(w.book.bids.orders[0].timestamp, 2);
    assert_eq!(w.book.asks.orders.len(), 0);
    assert_eq!(w.ledger[1].quote_locked_native, 301);
    assert_eq!(w.ledger[1].bids_count, 1);
    assert_eq!(w.ledger[1].asks_count, 0);
    assert_eq!(w.ledger[0].asks_count, 1);
}

#[test]
fn order_past_its_own_expiry_does_not_rest() {
    let mut w = world(0, 0, 8, 8);
    let mut o = order(Side::Bid, OrderType::Limit, 100, 2);
    o.expiry_ts = 5;
    let r = place(&mut w, 1, &o, 5).unwrap();
    assert_eq!(r.order_id, None);
    assert_eq!(r.deposit_amount, 0);
    assert_eq!(w.book.bids.len(), 0);
    let r = place(&mut w, 1, &o, 4).unwrap();
    assert_eq!(r.order_id, Some(make_order_id(100, 1)));
}

#[test]
fn free_balance_is_used_before_a_deposit() {
    let mut w = world(0, 0, 8, 8);
    w.ledger[1].quote_free_native = 120;
    let r = place(&mut w, 1, &order(Side::Bid, OrderType::Limit, 100, 2), 1).unwrap();
    assert_eq!(r.deposit_amount, 80);
    assert_eq!(w.ledger[1].quote_free_native, 0);
    assert_eq!(w.market.quote_deposit_total, 80);

    w.ledger[2].base_free_native = 10;
    let r = place(&mut w, 2, &order(Side::Ask, OrderType::Limit, 200, 4), 1).unwrap();
    assert_eq!(r.deposit_amount, 0);
    assert_eq!(w.ledger[2].base_free_native, 6);
    assert_eq!(w.market.base_deposit_total, 0);
}

#[test]
fn settle_deposit_exact_values() {
    let out = OrderOutcome {
        order_id: None,
        posted_base_native: 4,
        posted_quote_native: 30,
        total_base_taken_native: 6,
        total_quote_taken_native: 50,
        taker_fees: 2,
        maker_fees: 1,
    };
    let mut p = Position::new();
    p.quote_free_native = 33;
    p.base_free_native = 100;
    let m = market(0, 0);
    let d = settle_deposit(Side::Bid, &out, &p, &m).unwrap();
    assert_eq!(d.amount, 50);
    assert_eq!(d.position.quote_free_native, 0);
    assert_eq!(d.position.base_free_native, 100);
    assert_eq!(d.market.quote_deposit_total, 50);
    let d = settle_deposit(Side::Ask, &out, &p, &m).unwrap();
    assert_eq!(d.amount, 0);
    assert_eq!(d.position.base_free_native, 90);
    assert_eq!(d.market.base_deposit_total, 0);
    let mut full = m;
    full.quote_deposit_total = u64::MAX - 10;
    assert_eq!(settle_deposit(Side::Bid, &out, &p, &full), Err(OpenBookError::NumericOverflow));
}

#[test]
fn expired_market_rejects_and_changes_nothing() {
    let mut w = world(0, 0, 8, 8);
    place(&mut w, 0, &order(Side::Ask, OrderType::Limit, 100, 2), 1).unwrap();
    w.market.time_expiry = 500;
    let before = snapshot(&w);
    let r = place(&mut w, 1, &order(Side::Bid, OrderType::Limit, 100, 1), 500);
    assert_eq!(r, Err(OpenBookError::MarketHasExpired));
    assert_eq!(snapshot(&w), before);
    let r = place(&mut w, 1, &order(Side::Bid, OrderType::Limit, 100, 0), 501);
    assert_eq!(r, Err(OpenBookError::MarketHasExpired));
    assert_eq!(snapshot(&w), before);
    assert!(place(&mut w, 1, &order(Side::Bid, OrderType::Limit, 100, 1), 499).is_ok());
}

#[test]
fn invalid_lots_and_vault_are_rejected() {
    let mut w = world(0, 0, 8, 8);
    let before = snapshot(&w);
    assert_eq!(
        place(&mut w, 1, &order(Side::Bid, OrderType::Limit, 100, 0), 1),
        Err(OpenBookError::InvalidInputLots)
    );
    assert_eq!(
        place(&mut w, 1, &order(Side::Bid, OrderType::Limit, 100, -4), 1),
        Err(OpenBookError::InvalidInputLots)
    );
    let mut o = order(Side::Bid, OrderType::Limit, 100, 1);
    o.max_quote_lots_including_fees = -1;
    assert_eq!(place(&mut w, 1, &o, 1), Err(OpenBookError::InvalidInputLots));
    assert_eq!(
        place(&mut w, 1, &order(Side::Bid, OrderType::Limit, 0, 1), 1),
        Err(OpenBookError::InvalidInputLots)
    );
    let o = order(Side::Bid, OrderType::Limit, 100, 1);
    let r = place_order(&mut w.book, &mut w.market, &mut w.heap, &mut w.ledger, 1, BASE_VAULT, &o, 1, 10, None);
    assert_eq!(r, Err(OpenBookError::InvalidMarketVault));
    let r = place_order(&mut w.book, &mut w.market, &mut w.heap, &mut w.ledger, 9, QUOTE_VAULT, &o, 1, 10, None);
    assert_eq!(r, Err(OpenBookError::UnknownAccount));
    assert_eq!(snapshot(&w), before);
}

#[test]
fn full_book_rejects_a_resting_order() {
    let mut w = world(0, 0, 1, 8);
    place(&mut w, 0, &order(Side::Ask, OrderType::Limit, 100, 2), 1).unwrap();
    let before = snapshot(&w);
    assert_eq!(
        place(&mut w, 0, &order(Side::Ask, OrderType::Limit, 101, 2), 1),
        Err(OpenBookError::OrderBookFull)
    );
    assert_eq!(snapshot(&w), before);
    assert!(w.book.asks.len() <= w.book.asks.capacity);
}

#[test]
fn queue_without_room_for_any_event_rejects_a_trade() {
    let mut w = world(0, 0, 8, 0);
    place(&mut w, 0, &order(Side::Ask, OrderType::Limit, 100, 2), 1).unwrap();
    let before = snapshot(&w);
    assert_eq!(
        place(&mut w, 1, &order(Side::Bid, OrderType::Limit, 100, 1), 1),
        Err(OpenBookError::QueueFull)
    );
    assert_eq!(snapshot(&w), before);
}

#[test]
fn full_queue_evicts_oldest_and_penalizes_its_maker() {
    let mut w = world(0, 0, 8, 2);
    place(&mut w, 0, &order(Side::Ask, OrderType::Limit, 100, 1), 1).unwrap();
    place(&mut w, 2, &order(Side::Ask, OrderType::Limit, 101, 1), 1).unwrap();
    place(&mut w, 2, &order(Side::Ask, OrderType::Limit, 102, 1), 1).unwrap();
    place(&mut w, 1, &order(Side::Bid, OrderType::ImmediateOrCancel, 102, 3), 2).unwrap();
    assert_eq!(w.heap.len(), 2);
    assert_eq!(
        w.heap.events,
        vec![
            Event::Fill { maker: 2, maker_seq: 2, taker: 1, price: 101, quantity: 1, maker_fee: 0, taker_fee: 0 },
            Event::Fill { maker: 2, maker_seq: 3, taker: 1, price: 102, quantity: 1, maker_fee: 0, taker_fee: 0 },
        ]
    );
    assert_eq!(w.ledger[0].penalty_heap_count, 1);
    assert_eq!(w.ledger[2].penalty_heap_count, 0);
    assert_eq!(w.ledger[1].penalty_heap_count, 1);
}

#[test]
fn event_heap_push_and_pop() {
    let mut q = EventHeap::new(2);
    let mut ledger = vec![Position::new(), Position::new()];
    let e = |n: u64| Event::Out { owner: 1, seq: n, quantity: 1 };
    assert_eq!(q.push(e(1), &mut ledger), Ok(()));
    assert_eq!(q.push(e(2), &mut ledger), Ok(()));
    assert_eq!(ledger[1].penalty_heap_count, 0);
    assert_eq!(q.push(e(3), &mut ledger), Ok(()));
    assert_eq!(q.len(), 2);
    assert_eq!(ledger[1].penalty_heap_count, 1);
    assert_eq!(ledger[0].penalty_heap_count, 0);
    assert_eq!(q.pop_front(), Some(e(2)));
    assert_eq!(q.pop_front(), Some(e(3)));
    assert_eq!(q.pop_front(), None);
    let mut none = EventHeap::new(0);
    assert_eq!(none.push(e(1), &mut ledger), Err(OpenBookError::QueueFull));
    assert_eq!(none.len(), 0);
    ledger[1].penalty_heap_count = u64::MAX;
    q.push(e(4), &mut ledger).unwrap();
    q.push(e(5), &mut ledger).unwrap();
    q.push(e(6), &mut ledger).unwrap();
    assert_eq!(ledger[1].penalty_heap_count, u64::MAX);
}

#[test]
fn fill_or_kill_does_nothing_when_it_cannot_fill() {
    let mut w = world(0, 0, 8, 8);
    place(&mut w, 0, &order(Side::Ask, OrderType::Limit, 100, 2), 1).unwrap();
    let before = snapshot(&w);
    let r = place(&mut w, 1, &order(Side::Bid, OrderType::FillOrKill, 100, 3), 1).unwrap();
    assert_eq!(r.order_id, None);
    assert_eq!(r.deposit_amount, 0);
    assert_eq!(r.outcome.total_base_taken_native, 0);
    assert_eq!(snapshot(&w), before);
    let r = place(&mut w, 1, &order(Side::Bid, OrderType::FillOrKill, 100, 2), 1).unwrap();
    assert_eq!(r.outcome.total_base_taken_native, 2);
    assert_eq!(w.book.asks.len(), 0);
}

#[test]
fn post_only_never_trades() {
    let mut w = world(0, 0, 8, 8);
    place(&mut w, 0, &order(Side::Ask, OrderType::Limit, 100, 2), 1).unwrap();
    let r = place(&mut w, 1, &order(Side::Bid, OrderType::PostOnly, 100, 1), 1).unwrap();
    assert_eq!(r.order_id, None);
    assert_eq!(r.deposit_amount, 0);
    assert_eq!(w.heap.len(), 0);
    assert_eq!(w.book.bids.len(), 0);
    let r = place(&mut w, 1, &order(Side::Bid, OrderType::PostOnly, 99, 1), 1).unwrap();
    assert_eq!(r.order_id, Some(make_order_id(99, 2)));
    assert_eq!(w.book.bids.len(), 1);
}

#[test]
fn self_trade_policies() {
    let mut w = world(0, 0, 8, 8);
    place(&mut w, 1, &order(Side::Ask, OrderType::Limit, 100, 2), 1).unwrap();
    place(&mut w, 0, &order(Side::Ask, OrderType::Limit, 101, 2), 1).unwrap();
    let before = snapshot(&w);
    let mut o = order(Side::Bid, OrderType::ImmediateOrCancel, 101, 3);
    o.self_trade_behavior = SelfTradeBehavior::AbortTransaction;
    assert_eq!(place(&mut w, 1, &o, 2), Err(OpenBookError::SelfTradeRejected));
    assert_eq!(snapshot(&w), before);
    o.self_trade_behavior = SelfTradeBehavior::CancelProvide;
    let r = place(&mut w, 1, &o, 2).unwrap();
    assert_eq!(r.outcome.total_base_taken_native, 2);
    assert_eq!(
        w.heap.events,
        vec![
            Event::Out { owner: 1, seq: 1, quantity: 2 },
            Event::Fill { maker: 0, maker_seq: 2, taker: 1, price: 101, quantity: 2, maker_fee: 0, taker_fee: 0 },
        ]
    );
    assert_eq!(w.book.asks.len(), 0);
}

#[test]
fn expired_resting_order_leaves_without_a_trade() {
    let mut w = world(0, 0, 8, 8);
    let mut a = order(Side::Ask, OrderType::Limit, 100, 2);
    a.expiry_ts = 10;
    place(&mut w, 0, &a, 1).unwrap();
    let r = place(&mut w, 1, &order(Side::Bid, OrderType::ImmediateOrCancel, 100, 1), 10).unwrap();
    assert_eq!(r.outcome.total_base_taken_native, 0);
    assert_eq!(w.heap.events, vec![Event::Out { owner: 0, seq: 1, quantity: 2 }]);
    assert_eq!(w.book.asks.len(), 0);
}

#[test]
fn iteration_limit_stops_the_walk() {
    let mut side = BookSide::new(Side::Ask, 8);
    for seq in 1..=4u64 {
        side.insert(RestingOrder {
            owner: 0,
            seq,
            price: 100,
            quantity: 1,
            client_order_id: 0,
            timestamp: 0,
            expiry_ts: 0,
        })
        .unwrap();
    }
    let t = Taker {
        owner: 1,
        against: Side::Ask,
        limit_price: 100,
        self_trade: SelfTradeBehavior::DecrementTake,
        post_only: false,
        now_ts: 0,
        limit: 2,
        maker_fee: -200,
        taker_fee: 400,
    };
    let m = match_orders(&side, &t, 4, 1000).unwrap();
    assert_eq!(m.consumed, 2);
    assert_eq!(m.remaining_base, 2);
    assert_eq!(m.remaining_quote, 800);
    assert_eq!(
        m.events,
        vec![
            Event::Fill { maker: 0, maker_seq: 1, taker: 1, price: 100, quantity: 1, maker_fee: -200, taker_fee: 400 },
            Event::Fill { maker: 0, maker_seq: 2, taker: 1, price: 100, quantity: 1, maker_fee: -200, taker_fee: 400 },
        ]
    );
    assert_eq!(m.partial, None);
    let mut w = world(0, 0, 8, 8);
    w.book.asks = side;
    w.market.seq_num = 5;
    let o = order(Side::Bid, OrderType::Limit, 100, 4);
    let r = place_order(&mut w.book, &mut w.market, &mut w.heap, &mut w.ledger, 1, QUOTE_VAULT, &o, 1, 2, None)
        .unwrap();
    assert_eq!(r.order_id, None);
    assert_eq!(r.outcome.total_base_taken_native, 2);
    assert_eq!(w.book.asks.len(), 2);
    assert_eq!(w.book.bids.len(), 0);
}

#[test]
fn quote_bound_limits_the_trade() {
    let mut w = world(0, 0, 8, 8);
    place(&mut w, 0, &order(Side::Ask, OrderType::Limit, 100, 5), 1).unwrap();
    let mut o = order(Side::Bid, OrderType::Limit, 100, 5);
    o.max_quote_lots_including_fees = 250;
    let r = place(&mut w, 1, &o, 1).unwrap();
    assert_eq!(r.outcome.total_base_taken_native, 2);
    assert_eq!(r.outcome.total_quote_taken_native, 200);
    assert_eq!(r.order_id, None);
    assert_eq!(w.book.asks.orders[0].quantity, 3);
}

#[test]
fn book_side_insert_remove_peek() {
    let mut side = BookSide::new(Side::Bid, 3);
    let ro = |price: u64, seq: u64| RestingOrder {
        owner: 0,
        seq,
        price,
        quantity: 1,
        client_order_id: 0,
        timestamp: 0,
        expiry_ts: 0,
    };
    assert_eq!(side.peek_best(), None);
    assert!(!side.is_crossed(1));
    assert_eq!(side.insert(ro(10, 1)), Ok(0));
    assert_eq!(side.insert(ro(12, 2)), Ok(0));
    assert_eq!(side.insert(ro(10, 3)), Ok(2));
    assert_eq!(side.insert(ro(11, 4)), Err(OpenBookError::OrderBookFull));
    assert_eq!(side.peek_best(), Some(&ro(12, 2)));
    assert!(side.is_crossed(12));
    assert!(!side.is_crossed(13));
    assert_eq!(side.remove(10, 9), None);
    assert_eq!(side.remove(10, 1), Some(ro(10, 1)));
    assert_eq!(side.orders, vec![ro(12, 2), ro(10, 3)]);
}

#[test]
fn fees_and_lots_exact() {
    assert_eq!(fee_ceil(300, 1000), 1);
    assert_eq!(fee_ceil(1_000_000, 1000), 1000);
    assert_eq!(fee_ceil(1_000_001, 1000), 1001);
    assert_eq!(fee_ceil(0, 1000), 0);
    assert_eq!(fee_ceil(u64::MAX, 1_000_000), u64::MAX);
    let mut m = market(400, -200);
    m.base_lot_size = 10;
    m.quote_lot_size = 100;
    assert_eq!(m.base_lots_to_native(7), Some(70));
    assert_eq!(m.quote_lots_to_native(7), Some(700));
    assert_eq!(m.quote_lots_to_native(u64::MAX), None);
    assert_eq!(m.native_to_base_lots(79), 7);
    assert_eq!(m.native_to_quote_lots(799), 7);
    assert_eq!(m.taker_fees_ceil(10_000), 4);
    assert_eq!(m.maker_fees_ceil(10_000), 0);
    assert_eq!(make_order_id(1, 2), (1u128 << 64) + 2);
    assert_eq!(OpenBookError::QueueFull.name(), "QueueFull");
}

#[test]
fn overflow_rejects_and_changes_nothing() {
    let mut w = world(0, 0, 8, 8);
    w.market.base_lot_size = u64::MAX;
    let before = snapshot(&w);
    assert_eq!(
        place(&mut w, 0, &order(Side::Ask, OrderType::Limit, 100, 2), 1),
        Err(OpenBookError::NumericOverflow)
    );
    assert_eq!(snapshot(&w), before);
}

#[test]
fn new_order_leaves_deposit_totals_alone() {
    let mut w = world(0, 0, 8, 8);
    let o = order(Side::Ask, OrderType::Limit, 100, 2);
    let out = w.book.new_order(&o, &mut w.market, &mut w.heap, &mut w.ledger, 0, 1, 10).unwrap();
    assert_eq!(out.order_id, Some(make_order_id(100, 1)));
    assert_eq!(out.posted_base_native, 2);
    assert_eq!(w.market.base_deposit_total, 0);
    assert_eq!(w.ledger[0].base_locked_native, 2);
    assert_eq!(w.ledger[0].penalty_heap_count, 0);
}

#[test]
fn transfer_fee_grosses_the_deposit_up() {
    let ten_percent = TransferFeeTerms { transfer_fee_basis_points: 1000, maximum_fee: u64::MAX };
    assert_eq!(amount_with_fee(9, Some(ten_percent)), Some(10));
    assert_eq!(amount_with_fee(9, None), Some(9));
    let free = TransferFeeTerms { transfer_fee_basis_points: 0, maximum_fee: 5 };
    assert_eq!(amount_with_fee(9, Some(free)), Some(9));
    let capped = TransferFeeTerms { transfer_fee_basis_points: 1000, maximum_fee: 5 };
    assert_eq!(amount_with_fee(1000, Some(capped)), Some(1005));
    assert_eq!(amount_with_fee(u64::MAX, Some(ten_percent)), None);

    let mut w = world(0, 0, 8, 8);
    let o = order(Side::Ask, OrderType::Limit, 100, 9);
    let r = place_order(
        &mut w.book, &mut w.market, &mut w.heap, &mut w.ledger, 0, BASE_VAULT, &o, 1, 10,
        Some(ten_percent),
    )
    .unwrap();
    assert_eq!(r.deposit_amount, 9);
    assert_eq!(r.deposit_actual_amount, 10);
    assert_eq!(w.market.base_deposit_total, 9);
}

#[test]
fn bid_budget_leaves_room_for_the_taker_fee() {
    let mut w = world(10_000, 0, 8, 8);
    place(&mut w, 0, &order(Side::Ask, OrderType::Limit, 100, 50), 1).unwrap();
    let mut o = order(Side::Bid, OrderType::ImmediateOrCancel, 100, 50);
    o.max_quote_lots_including_fees = 1010;
    let r = place(&mut w, 1, &o, 1).unwrap();
    assert_eq!(r.outcome.total_base_taken_native, 10);
    assert_eq!(r.outcome.total_quote_taken_native, 1000);
    assert_eq!(r.outcome.taker_fees, 10);
    assert_eq!(r.deposit_amount, 1010);
    assert_eq!(r.deposit_actual_amount, 1010);
    let m = market(10_000, 0);
    assert_eq!(m.subtract_taker_fees(1010), 1000);
    assert_eq!(m.subtract_taker_fees(u64::MAX), 18264103043276783777);
}

#[test]
fn invariant_tests_tell_sound_from_unsound() {
    let mut w = world(0, 0, 8, 8);
    place(&mut w, 0, &order(Side::Ask, OrderType::Limit, 100, 1), 1).unwrap();
    place(&mut w, 0, &order(Side::Ask, OrderType::Limit, 101, 1), 1).unwrap();
    assert!(w.book.is_wf_below(w.market.seq_num));
    assert!(!w.book.is_wf_below(2));
    assert!(w.market.is_wf());
    assert!(w.heap.is_wf());
    w.book.asks.orders.swap(0, 1);
    assert!(!w.book.is_wf_below(w.market.seq_num));
    w.market.base_lot_size = 0;
    assert!(!w.market.is_wf());
}

#[test]
fn orderbook_operations_by_side() {
    let mut book = Orderbook::new(2);
    let ro = |price: u64, seq: u64| RestingOrder {
        owner: 0,
        seq,
        price,
        quantity: 4,
        client_order_id: 0,
        timestamp: 0,
        expiry_ts: 0,
    };
    assert_eq!(book.insert(Side::Ask, ro(105, 1)), Ok(0));
    assert_eq!(book.insert(Side::Ask, ro(103, 2)), Ok(0));
    assert_eq!(book.insert(Side::Ask, ro(104, 3)), Err(OpenBookError::OrderBookFull));
    assert_eq!(book.insert(Side::Bid, ro(101, 4)), Ok(0));
    assert_eq!(book.peek_best(Side::Ask), Some(&ro(103, 2)));
    assert_eq!(book.peek_best(Side::Bid), Some(&ro(101, 4)));
    assert!(book.is_crossed(Side::Ask, 103));
    assert!(!book.is_crossed(Side::Ask, 102));
    assert!(book.is_crossed(Side::Bid, 101));
    assert!(!book.is_crossed(Side::Bid, 102));
    assert_eq!(book.remove(Side::Bid, 103, 2), None);
    assert_eq!(book.remove(Side::Ask, 103, 2), Some(ro(103, 2)));
    assert_eq!(book.peek_best(Side::Ask), Some(&ro(105, 1)));
    assert_eq!(book.bids.len(), 1);
}

#[test]
fn lots_in_the_book_are_conserved_by_a_walk() {
    let mut w = world(0, 0, 8, 8);
    place(&mut w, 1, &order(Side::Ask, OrderType::Limit, 100, 3), 1).unwrap();
    place(&mut w, 0, &order(Side::Ask, OrderType::Limit, 101, 4), 1).unwrap();
    place(&mut w, 2, &order(Side::Ask, OrderType::Limit, 102, 5), 1).unwrap();
    let before: u64 = w.book.asks.orders.iter().map(|o| o.quantity).sum();
    let mut o = order(Side::Bid, OrderType::ImmediateOrCancel, 102, 6);
    o.self_trade_behavior = SelfTradeBehavior::CancelProvide;
    let r = place(&mut w, 1, &o, 2).unwrap();
    let after: u64 = w.book.asks.orders.iter().map(|o| o.quantity).sum();
    let mut filled = 0u64;
    let mut removed = 0u64;
    for e in w.heap.events.iter() {
        match e {
            Event::Fill { quantity, .. } => filled += quantity,
            Event::Out { quantity, .. } => removed += quantity,
        }
    }
    assert_eq!(before, 12);
    assert_eq!(removed, 3);
    assert_eq!(filled, 6);
    assert_eq!(after, 3);
    assert_eq!(before, after + filled + removed);
    assert_eq!(r.outcome.total_base_taken_native, filled);
    assert_eq!(r.outcome.total_quote_taken_native, 4 * 101 + 2 * 102);
    assert_eq!(w.book.asks.orders[0].quantity, 3);
    assert_eq!(w.book.asks.orders[0].seq, 3);
}

#[test]
fn every_error_has_its_own_name() {
    assert_eq!(OpenBookError::InvalidInputLots.name(), "InvalidInputLots");
    assert_eq!(OpenBookError::MarketHasExpired.name(), "MarketHasExpired");
    assert_eq!(OpenBookError::InvalidMarketVault.name(), "InvalidMarketVault");
    assert_eq!(OpenBookError::OrderBookFull.name(), "OrderBookFull");
    assert_eq!(OpenBookError::QueueFull.name(), "QueueFull");
    assert_eq!(OpenBookError::SelfTradeRejected.name(), "SelfTradeRejected");
    assert_eq!(OpenBookError::NumericOverflow.name(), "NumericOverflow");
    assert_eq!(OpenBookError::UnknownAccount.name(), "UnknownAccount");
}
