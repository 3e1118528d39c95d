use vstd::prelude::*;
use crate::order::Side;

verus! {

/// Fee rates are expressed in millionths of the quote amount.
pub const FEES_SCALE_FACTOR: u64 = 1_000_000;

/// Market-wide parameters and running totals.
#[derive(Clone, Copy, Debug, PartialEq, Eq)]
pub struct Market {
    pub base_lot_size: u64,
    pub quote_lot_size: u64,
    /// Maker rate in millionths; negative for a rebate.
    pub maker_fee: i64,
    /// Taker rate in millionths.
    pub taker_fee: u64,
    /// Timestamp from which the market accepts no order.
    pub time_expiry: u64,
    pub base_deposit_total: u64,
    pub quote_deposit_total: u64,
    /// Sequence number that the next resting order receives.
    pub seq_num: u64,
    /// Address of the vault that holds the base asset.
    pub market_base_vault: [u8; 32],
    /// Address of the vault that holds the quote asset.
    pub market_quote_vault: [u8; 32],
}

/// True where two addresses hold the same bytes.
pub fn same_key(a: &[u8; 32], b: &[u8; 32]) -> (r: bool)
    ensures
        r == (a@ == b@),
{
    let mut i: usize = 0;
    while i < 32
        invariant
            i <= 32,
            forall|k: int| 0 <= k < i ==> a@[k] == b@[k],
        decreases 32 - i,
    {
        if a[i] != b[i] {
            return false;
        }
        i += 1;
    }
    assert(a@ =~= b@);
    true
}

/// The quote lots that may be traded out of a bound that includes the taker
/// fee: the largest part of it that, with the fee on top, stays within it.
pub open spec fn quote_budget(max_quote_including_fees: u64, taker_fee: u64) -> u64 {
    ((max_quote_including_fees * 1_000_000) / (1_000_000 + taker_fee)) as u64
}

/// The fee on `amount` at `rate` millionths, rounded up.
pub open spec fn fee_of(amount: int, rate: int) -> int {
    (amount * rate + 999_999) / 1_000_000
}

impl Market {
    /// Lot sizes are positive and no fee rate exceeds the whole amount.
    pub open spec fn wf(self) -> bool {
        &&& self.base_lot_size >= 1
        &&& self.quote_lot_size >= 1
        &&& self.taker_fee <= FEES_SCALE_FACTOR
        &&& -(FEES_SCALE_FACTOR as int) <= self.maker_fee <= FEES_SCALE_FACTOR as int
    }

    pub open spec fn expired_at(self, now: u64) -> bool {
        now >= self.time_expiry
    }

    pub fn is_expired(&self, now: u64) -> (r: bool)
        ensures
            r == self.expired_at(now),
    {
        now >= self.time_expiry
    }

    pub open spec fn vault_of(self, side: Side) -> [u8; 32] {
        match side {
            Side::Bid => self.market_quote_vault,
            Side::Ask => self.market_base_vault,
        }
    }

    /// The vault that receives the deposit of an order on `side`.
    pub fn get_vault_by_side(&self, side: Side) -> (v: [u8; 32])
        ensures
            v == self.vault_of(side),
    {
        match side {
            Side::Bid => self.market_quote_vault,
            Side::Ask => self.market_base_vault,
        }
    }

    pub fn is_wf(&self) -> (r: bool)
        ensures
            r == self.wf(),
    {
        self.base_lot_size >= 1 && self.quote_lot_size >= 1 && self.taker_fee <= FEES_SCALE_FACTOR
            && self.maker_fee >= -1_000_000i64 && self.maker_fee <= 1_000_000i64
    }

    /// Sets room for the taker fee aside from a quote bound that includes it.
    pub fn subtract_taker_fees(&self, max_quote_including_fees: u64) -> (r: u64)
        requires
            self.wf(),
        ensures
            r == quote_budget(max_quote_including_fees, self.taker_fee),
            r <= max_quote_including_fees,
    {
        let q: u128 = max_quote_including_fees as u128;
        let d: u128 = 1_000_000u128 + self.taker_fee as u128;
        let n: u128 = q * 1_000_000u128;
        assert(n / d <= q) by (nonlinear_arith)
            requires
                n == q * 1_000_000,
                d >= 1_000_000,
                q >= 0,
        ;
        (n / d) as u64
    }

    /// Native base amount of `lots`, or `None` where it exceeds 64 bits.
    pub fn base_lots_to_native(&self, lots: u64) -> (r: Option<u64>)
        ensures
            r == native_of(lots, self.base_lot_size),
    {
        lots.checked_mul(self.base_lot_size)
    }

    /// Native quote amount of `lots`, or `None` where it exceeds 64 bits.
    pub fn quote_lots_to_native(&self, lots: u64) -> (r: Option<u64>)
        ensures
            r == native_of(lots, self.quote_lot_size),
    {
        lots.checked_mul(self.quote_lot_size)
    }

    /// Whole base lots contained in a native amount.
    pub fn native_to_base_lots(&self, native: u64) -> (r: u64)
        requires
            self.wf(),
        ensures
            r == native as int / self.base_lot_size as int,
    {
        native / self.base_lot_size
    }

    /// Whole quote lots contained in a native amount.
    pub fn native_to_quote_lots(&self, native: u64) -> (r: u64)
        requires
            self.wf(),
        ensures
            r == native as int / self.quote_lot_size as int,
    {
        native / self.quote_lot_size
    }

    /// Taker fee on a native quote amount, rounded up.
    pub fn taker_fees_ceil(&self, quote_native: u64) -> (r: u64)
        requires
            self.wf(),
        ensures
            r == fee_of(quote_native as int, self.taker_fee as int),
            r <= quote_native,
    {
        fee_ceil(quote_native, self.taker_fee)
    }

    /// Maker fee on a native quote amount, rounded up; zero under a rebate.
    pub fn maker_fees_ceil(&self, quote_native: u64) -> (r: u64)
        requires
            self.wf(),
        ensures
            r == maker_fee_of(quote_native, self.maker_fee),
            r <= quote_native,
    {
        if self.maker_fee > 0 {
            fee_ceil(quote_native, self.maker_fee as u64)
        } else {
            0
        }
    }
}

pub open spec fn maker_fee_of(quote_native: u64, rate: i64) -> int {
    if rate > 0 {
        fee_of(quote_native as int, rate as int)
    } else {
        0
    }
}

/// `lots * lot_size` where it fits in 64 bits.
pub open spec fn native_of(lots: u64, lot_size: u64) -> Option<u64> {
    if lots * lot_size > u64::MAX {
        None
    } else {
        Some((lots * lot_size) as u64)
    }
}

/// `amount * rate / 1_000_000`, rounded up, for a rate of at most the whole.
pub fn fee_ceil(amount: u64, rate: u64) -> (r: u64)
    requires
        rate <= FEES_SCALE_FACTOR,
    ensures
        r == fee_of(amount as int, rate as int),
        r <= amount,
{
    let a: u128 = amount as u128;
    let b: u128 = rate as u128;
    assert(a * b <= a * 1_000_000) by (nonlinear_arith)
        requires
            b <= 1_000_000,
            a >= 0,
    ;
    let n: u128 = a * b + 999_999u128;
    let q: u128 = n / 1_000_000u128;
    q as u64
}

} // verus!
