use vstd::prelude::*;
use crate::book::Orderbook;
use crate::engine::{
    applied, apply_plan, lemma_push_all_bounds, plan_for, plan_order, OrderOutcome, Plan, PlanView,
};
use crate::error::OpenBookError;
use crate::event_heap::EventHeap;
use crate::market::{same_key, Market};
use crate::order::{Order, Side};
use crate::position::Position;
use crate::transfer_fee::{amount_with_fee, grossed_up, TransferFeeTerms};

verus! {

/// What the trader owes for an order: for a bid the quote taken and posted
/// with both fees, for an ask the base taken and posted.
pub open spec fn required_of(side: Side, out: OrderOutcome) -> int {
    match side {
        Side::Bid => out.total_quote_taken_native + out.posted_quote_native + out.taker_fees
            + out.maker_fees,
        Side::Ask => out.total_base_taken_native + out.posted_base_native,
    }
}

/// The free balance that an order of `side` draws on.
pub open spec fn free_of(side: Side, p: Position) -> int {
    match side {
        Side::Bid => p.quote_free_native as int,
        Side::Ask => p.base_free_native as int,
    }
}

/// The part of `required` that the free balance covers.
pub open spec fn covered(required: int, free: int) -> int {
    if required <= free {
        required
    } else {
        free
    }
}

/// The amount to bring in from outside: what the free balance does not cover.
pub open spec fn deposit_of(required: int, free: int) -> int {
    required - covered(required, free)
}

/// The deposit that an order calls for, with the position and the market as
/// they stand once it is booked.
#[derive(Clone, Copy, Debug, PartialEq, Eq)]
pub struct Deposit {
    pub amount: u64,
    pub position: Position,
    pub market: Market,
}

/// What an accepted order returns.
#[derive(Clone, Copy, Debug, PartialEq, Eq, Structural)]
pub struct Placed {
    /// Identifier of the resting remainder; `None` where nothing rests.
    pub order_id: Option<u128>,
    /// Native amount that the market's vault must receive from the trader.
    pub deposit_amount: u64,
    /// Native amount to ask of the trader: the deposit with the mint's
    /// transfer fee on top.
    pub deposit_actual_amount: u64,
    pub outcome: OrderOutcome,
}

/// The deposit accounting after an order with amounts `out`: the free balance
/// pays what it can, the rest is deposited and added to the market's total.
pub open spec fn settled(side: Side, out: OrderOutcome, p: Position, m: Market) -> Result<
    Deposit,
    OpenBookError,
> {
    let required = required_of(side, out);
    let free = free_of(side, p);
    let deposit = deposit_of(required, free);
    let left = (free - covered(required, free)) as u64;
    if required > u64::MAX {
        Err(OpenBookError::NumericOverflow)
    } else {
        match side {
            Side::Bid => if m.quote_deposit_total + deposit > u64::MAX {
                Err(OpenBookError::NumericOverflow)
            } else {
                Ok(
                    Deposit {
                        amount: deposit as u64,
                        position: Position { quote_free_native: left, ..p },
                        market: Market {
                            quote_deposit_total: (m.quote_deposit_total + deposit) as u64,
                            ..m
                        },
                    },
                )
            },
            Side::Ask => if m.base_deposit_total + deposit > u64::MAX {
                Err(OpenBookError::NumericOverflow)
            } else {
                Ok(
                    Deposit {
                        amount: deposit as u64,
                        position: Position { base_free_native: left, ..p },
                        market: Market {
                            base_deposit_total: (m.base_deposit_total + deposit) as u64,
                            ..m
                        },
                    },
                )
            },
        }
    }
}

fn sum_checked(a: u64, b: u64, c: u64, d: u64) -> (r: Option<u64>)
    ensures
        a + b + c + d > u64::MAX ==> r.is_none(),
        a + b + c + d <= u64::MAX ==> r == Some((a + b + c + d) as u64),
{
    match a.checked_add(b) {
        Some(x) => match x.checked_add(c) {
            Some(y) => y.checked_add(d),
            None => None,
        },
        None => None,
    }
}

/// Nets what an order requires against the trader's free balance.
pub fn settle_deposit(side: Side, out: &OrderOutcome, position: &Position, market: &Market) -> (r:
    Result<Deposit, OpenBookError>)
    ensures
        r == settled(side, *out, *position, *market),
{
    match side {
        Side::Bid => {
            let required = match sum_checked(
                out.total_quote_taken_native,
                out.posted_quote_native,
                out.taker_fees,
                out.maker_fees,
            ) {
                Some(x) => x,
                None => {
                    return Err(OpenBookError::NumericOverflow);
                },
            };
            let free = position.quote_free_native;
            let lock: u64 = if required <= free {
                required
            } else {
                free
            };
            let deposit: u64 = required - lock;
            match market.quote_deposit_total.checked_add(deposit) {
                Some(total) => Ok(
                    Deposit {
                        amount: deposit,
                        position: Position { quote_free_native: free - lock, ..*position },
                        market: Market { quote_deposit_total: total, ..*market },
                    },
                ),
                None => Err(OpenBookError::NumericOverflow),
            }
        },
        Side::Ask => {
            let required = match out.total_base_taken_native.checked_add(out.posted_base_native) {
                Some(x) => x,
                None => {
                    return Err(OpenBookError::NumericOverflow);
                },
            };
            let free = position.base_free_native;
            let lock: u64 = if required <= free {
                required
            } else {
                free
            };
            let deposit: u64 = required - lock;
            match market.base_deposit_total.checked_add(deposit) {
                Some(total) => Ok(
                    Deposit {
                        amount: deposit,
                        position: Position { base_free_native: free - lock, ..*position },
                        market: Market { base_deposit_total: total, ..*market },
                    },
                ),
                None => Err(OpenBookError::NumericOverflow),
            }
        },
    }
}

/// The plan, the deposit and the amount to ask of the trader, or the error
/// that rejects the order. The conditions are tried in this order: expiry, lot bounds,
/// vault, account, matching, amounts, transfer fee.
pub open spec fn placement(
    book: &Orderbook,
    heap: &EventHeap,
    ledger: Seq<Position>,
    market: Market,
    owner: usize,
    market_vault: [u8; 32],
    order: Order,
    now_ts: u64,
    limit: u8,
    terms: Option<TransferFeeTerms>,
) -> Result<(PlanView, Deposit, u64), OpenBookError> {
    if market.expired_at(now_ts) {
        Err(OpenBookError::MarketHasExpired)
    } else if !order.valid() {
        Err(OpenBookError::InvalidInputLots)
    } else if market.vault_of(order.side)@ != market_vault@ {
        Err(OpenBookError::InvalidMarketVault)
    } else if owner >= ledger.len() {
        Err(OpenBookError::UnknownAccount)
    } else {
        match plan_for(book, heap, order, market, ledger[owner as int], owner, now_ts, limit) {
            Err(e) => Err(e),
            Ok(p) => match settled(order.side, p.outcome, p.position, p.market) {
                Err(e) => Err(e),
                Ok(d) => match grossed_up(d.amount, terms) {
                    None => Err(OpenBookError::NumericOverflow),
                    Some(actual) => Ok((p, d, actual)),
                },
            },
        }
    }
}

/// Places `order` for the trader at `owner` in `ledger`: validates it,
/// matches it, rests what may rest, books the deposit, and returns the amount
/// to transfer into `market_vault`. A rejected order changes nothing.
pub fn place_order(
    book: &mut Orderbook,
    market: &mut Market,
    heap: &mut EventHeap,
    ledger: &mut Vec<Position>,
    owner: usize,
    market_vault: [u8; 32],
    order: &Order,
    now_ts: u64,
    limit: u8,
    terms: Option<TransferFeeTerms>,
) -> (r: Result<Placed, OpenBookError>)
    requires
        old(book).wf(),
        old(market).wf(),
        old(heap).wf(),
        old(book).seqs_below(old(market).seq_num),
    ensures
        match placement(
            old(book),
            old(heap),
            old(ledger)@,
            *old(market),
            owner,
            market_vault,
            *order,
            now_ts,
            limit,
            terms,
        ) {
            Err(e) => r == Err::<Placed, OpenBookError>(e),
            Ok(pd) => r == Ok::<Placed, OpenBookError>(
                Placed {
                    order_id: pd.0.outcome.order_id,
                    deposit_amount: pd.1.amount,
                    deposit_actual_amount: pd.2,
                    outcome: pd.0.outcome,
                },
            ) && applied(
                old(book),
                old(heap),
                old(ledger)@,
                order.side,
                owner,
                PlanView { position: pd.1.position, market: pd.1.market, ..pd.0 },
                true,
                final(book),
                final(heap),
                final(ledger)@,
                *final(market),
            ),
        },
        old(market).expired_at(now_ts) ==> r == Err::<Placed, OpenBookError>(
            OpenBookError::MarketHasExpired,
        ),
        r.is_err() ==> *final(book) == *old(book) && *final(market) == *old(market),
        r.is_err() ==> *final(heap) == *old(heap) && *final(ledger) == *old(ledger),
        r matches Ok(placed) ==> terms is None ==> placed.deposit_actual_amount
            == placed.deposit_amount,
        r matches Ok(placed) ==> final(market).base_deposit_total
            + final(market).quote_deposit_total == old(market).base_deposit_total
            + old(market).quote_deposit_total + placed.deposit_amount,
        final(book).wf(),
        final(market).wf(),
        final(heap).wf(),
        final(heap).capacity == old(heap).capacity,
        final(book).seqs_below(final(market).seq_num),
        final(ledger)@.len() == old(ledger)@.len(),
{
    if market.is_expired(now_ts) {
        return Err(OpenBookError::MarketHasExpired);
    }
    if !order.is_valid() {
        return Err(OpenBookError::InvalidInputLots);
    }
    if !same_key(&market.get_vault_by_side(order.side), &market_vault) {
        return Err(OpenBookError::InvalidMarketVault);
    }
    if owner >= ledger.len() {
        return Err(OpenBookError::UnknownAccount);
    }
    let position = ledger[owner];
    let plan0 = plan_order(book, heap, order, market, &position, owner, now_ts, limit)?;
    let d = settle_deposit(order.side, &plan0.outcome, &plan0.position, &plan0.market)?;
    let actual = match amount_with_fee(d.amount, terms) {
        Some(a) => a,
        None => {
            return Err(OpenBookError::NumericOverflow);
        },
    };
    let plan = Plan {
        matched: plan0.matched,
        posted: plan0.posted,
        outcome: plan0.outcome,
        position: d.position,
        market: d.market,
    };
    let before = heap.len();
    proof {
        lemma_push_all_bounds(
            heap@,
            heap.capacity,
            ledger@.update(owner as int, plan.position),
            plan.matched.events@,
        );
    }
    apply_plan(book, heap, ledger, market, order.side, owner, &plan);
    if heap.len() > before {
        let mut p = ledger[owner];
        p.penalize();
        ledger.set(owner, p);
    }
    Ok(
        Placed {
            order_id: plan.outcome.order_id,
            deposit_amount: d.amount,
            deposit_actual_amount: actual,
            outcome: plan.outcome,
        },
    )
}

/// The deposit is exactly what the free balance does not cover, never
/// negative, and the free balance goes down by exactly what it covers. The
/// other balances of the position stay as they were.
pub proof fn lemma_deposit_correct(side: Side, out: OrderOutcome, p: Position, m: Market)
    requires
        settled(side, out, p, m).is_ok(),
    ensures
        ({
            let d = settled(side, out, p, m).unwrap();
            let required = required_of(side, out);
            let free = free_of(side, p);
            let low = if required <= free {
                required
            } else {
                free
            };
            &&& d.amount == required - low
            &&& d.amount >= 0
            &&& free_of(side, d.position) == free - low
            &&& d.amount + low == required
            &&& match side {
                Side::Bid => d.position == (Position {
                    quote_free_native: d.position.quote_free_native,
                    ..p
                }),
                Side::Ask => d.position == (Position {
                    base_free_native: d.position.base_free_native,
                    ..p
                }),
            }
        }),
{
}

/// Booking a deposit changes the market's deposit totals by the deposit
/// and by nothing else: the total of the order's side grows by the amount, the
/// other total and every other field of the market stay as they were.
pub proof fn lemma_deposit_conserves(side: Side, out: OrderOutcome, p: Position, m: Market)
    requires
        settled(side, out, p, m).is_ok(),
    ensures
        ({
            let d = settled(side, out, p, m).unwrap();
            &&& d.market.base_deposit_total + d.market.quote_deposit_total == m.base_deposit_total
                + m.quote_deposit_total + d.amount
            &&& match side {
                Side::Bid => d.market == (Market {
                    quote_deposit_total: (m.quote_deposit_total + d.amount) as u64,
                    ..m
                }),
                Side::Ask => d.market == (Market {
                    base_deposit_total: (m.base_deposit_total + d.amount) as u64,
                    ..m
                }),
            }
        }),
{
}

/// An order against an expired market is rejected as such, whatever else is
/// wrong or right with it.
pub proof fn lemma_expired_market_rejects(
    book: &Orderbook,
    heap: &EventHeap,
    ledger: Seq<Position>,
    market: Market,
    owner: usize,
    market_vault: [u8; 32],
    order: Order,
    now_ts: u64,
    limit: u8,
    terms: Option<TransferFeeTerms>,
)
    requires
        now_ts >= market.time_expiry,
    ensures
        placement(book, heap, ledger, market, owner, market_vault, order, now_ts, limit, terms)
            == Err::<(PlanView, Deposit, u64), OpenBookError>(OpenBookError::MarketHasExpired),
{
}

} // verus!
