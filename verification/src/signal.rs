use vstd::prelude::*;

verus! {

/// Exchange a trade came from.
#[derive(Debug, Clone, Copy, PartialEq, Eq, Structural)]
pub enum Exchange {
    BinanceSpot,
    BinanceFutures,
    Bybit,
}

impl Exchange {
    /// Trades of Binance Spot and Bybit count as spot flow, those of Binance
    /// Futures as perpetual flow.
    pub fn is_spot(&self) -> (b: bool)
        ensures
            b == (*self != Exchange::BinanceFutures),
    {
        match self {
            Exchange::BinanceSpot | Exchange::Bybit => true,
            Exchange::BinanceFutures => false,
        }
    }
}

} // verus!
