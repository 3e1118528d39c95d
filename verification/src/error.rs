use vstd::prelude::*;

verus! {

/// Reasons for which a request is rejected. A rejected request leaves every
/// structure exactly as it was.
#[derive(Clone, Copy, Debug, PartialEq, Eq, Structural)]
pub enum OpenBookError {
    /// A lot bound or the limit price is zero or negative.
    InvalidInputLots,
    /// The market's expiry timestamp has been reached.
    MarketHasExpired,
    /// The vault handed in is not the market's vault for the order's side.
    InvalidMarketVault,
    /// The remainder cannot rest: the book side is at its capacity.
    OrderBookFull,
    /// An event must be queued and the queue cannot hold any event.
    QueueFull,
    /// The order would trade against its own owner and its policy forbids it.
    SelfTradeRejected,
    /// An amount left the range of 64-bit unsigned integers.
    NumericOverflow,
    /// The acting trader has no position in the ledger.
    UnknownAccount,
}

impl OpenBookError {
    /// The characters of the error's short name: the variant's own name.
    pub open spec fn name_of(self) -> Seq<char> {
        match self {
            OpenBookError::InvalidInputLots => "InvalidInputLots"@,
            OpenBookError::MarketHasExpired => "MarketHasExpired"@,
            OpenBookError::InvalidMarketVault => "InvalidMarketVault"@,
            OpenBookError::OrderBookFull => "OrderBookFull"@,
            OpenBookError::QueueFull => "QueueFull"@,
            OpenBookError::SelfTradeRejected => "SelfTradeRejected"@,
            OpenBookError::NumericOverflow => "NumericOverflow"@,
            OpenBookError::UnknownAccount => "UnknownAccount"@,
        }
    }

    /// Short name of the error, for messages.
    pub fn name(&self) -> (s: &'static str)
        ensures
            s@ == self.name_of(),
    {
        match self {
            OpenBookError::InvalidInputLots => "InvalidInputLots",
            OpenBookError::MarketHasExpired => "MarketHasExpired",
            OpenBookError::InvalidMarketVault => "InvalidMarketVault",
            OpenBookError::OrderBookFull => "OrderBookFull",
            OpenBookError::QueueFull => "QueueFull",
            OpenBookError::SelfTradeRejected => "SelfTradeRejected",
            OpenBookError::NumericOverflow => "NumericOverflow",
            OpenBookError::UnknownAccount => "UnknownAccount",
        }
    }
}

} // verus!
