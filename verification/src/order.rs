use vstd::prelude::*;

verus! {

/// Side of the book an order belongs to.
#[derive(Clone, Copy, Debug, PartialEq, Eq, Structural)]
pub enum Side {
    Bid,
    Ask,
}

/// Execution policy of an incoming order.
#[derive(Clone, Copy, Debug, PartialEq, Eq, Structural)]
pub enum OrderType {
    /// Match what crosses, rest the remainder.
    Limit,
    /// Match at any price, never rest.
    Market,
    /// Rest only; if the order would trade on arrival it is dropped.
    PostOnly,
    /// Match what crosses, drop the remainder.
    ImmediateOrCancel,
    /// Match the whole base quantity or do nothing at all.
    FillOrKill,
}

/// What happens when an incoming order meets a resting order of its own owner.
#[derive(Clone, Copy, Debug, PartialEq, Eq, Structural)]
pub enum SelfTradeBehavior {
    /// Trade as with any other maker.
    DecrementTake,
    /// Remove the resting order without a trade and go on matching.
    CancelProvide,
    /// Reject the whole request.
    AbortTransaction,
}

/// An order as submitted.
#[derive(Clone, Copy, Debug, PartialEq, Eq, Structural)]
pub struct Order {
    pub side: Side,
    pub order_type: OrderType,
    /// Limit price in quote lots per base lot; ignored for market orders.
    pub price_lots: i64,
    pub max_base_lots: i64,
    pub max_quote_lots_including_fees: i64,
    pub client_order_id: u64,
    pub self_trade_behavior: SelfTradeBehavior,
    /// Timestamp from which a resting remainder no longer trades; 0 for none.
    pub expiry_ts: u64,
}

/// An order, or its remainder, waiting in the book.
#[derive(Clone, Copy, Debug, PartialEq, Eq, Structural)]
pub struct RestingOrder {
    /// Index of the owner's position in the ledger.
    pub owner: usize,
    /// Arrival sequence number: the tie-break among equal prices.
    pub seq: u64,
    pub price: u64,
    pub quantity: u64,
    pub client_order_id: u64,
    pub timestamp: u64,
    pub expiry_ts: u64,
}

impl RestingOrder {
    /// True where the order no longer trades at time `now`.
    pub open spec fn expired_at(self, now: u64) -> bool {
        self.expiry_ts != 0 && self.expiry_ts <= now
    }

    pub fn is_expired(&self, now: u64) -> (r: bool)
        ensures
            r == self.expired_at(now),
    {
        self.expiry_ts != 0 && self.expiry_ts <= now
    }
}

impl Order {
    /// The lot bounds are positive, and so is the price of an order that has one.
    pub open spec fn valid(self) -> bool {
        &&& self.max_base_lots > 0
        &&& self.max_quote_lots_including_fees > 0
        &&& (self.order_type != OrderType::Market ==> self.price_lots > 0)
    }

    /// The price up to which the order trades: its limit, or for a market
    /// order the extreme of its side.
    pub open spec fn effective_price(self) -> u64 {
        if self.order_type == OrderType::Market {
            match self.side {
                Side::Bid => u64::MAX,
                Side::Ask => 1u64,
            }
        } else {
            self.price_lots as u64
        }
    }

    pub fn is_valid(&self) -> (r: bool)
        ensures
            r == self.valid(),
    {
        self.max_base_lots > 0 && self.max_quote_lots_including_fees > 0 && (match self.order_type {
            OrderType::Market => true,
            _ => self.price_lots > 0,
        })
    }

    pub fn limit_price(&self) -> (p: u64)
        requires
            self.valid(),
        ensures
            p == self.effective_price(),
            p >= 1,
    {
        match self.order_type {
            OrderType::Market => match self.side {
                Side::Bid => u64::MAX,
                Side::Ask => 1u64,
            },
            _ => self.price_lots as u64,
        }
    }

    /// True where the policy lets a remainder rest in the book.
    pub open spec fn may_rest(self) -> bool {
        self.order_type == OrderType::Limit || self.order_type == OrderType::PostOnly
    }

    pub fn can_rest(&self) -> (r: bool)
        ensures
            r == self.may_rest(),
    {
        match self.order_type {
            OrderType::Limit => true,
            OrderType::PostOnly => true,
            _ => false,
        }
    }
}

/// The 128-bit identifier of a resting order: price in the upper half,
/// sequence number in the lower half.
pub open spec fn order_id_of(price: u64, seq: u64) -> u128 {
    (price as int * 0x1_0000_0000_0000_0000 + seq as int) as u128
}

pub fn make_order_id(price: u64, seq: u64) -> (id: u128)
    ensures
        id == order_id_of(price, seq),
{
    let hi: u128 = price as u128;
    let lo: u128 = seq as u128;
    hi * 0x1_0000_0000_0000_0000u128 + lo
}

} // verus!
