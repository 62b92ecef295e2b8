//! Messages the lockdrop's neighbours exchange: the airdrop's answer to a
//! claim check and the auction's price queries.
use vstd::prelude::*;

verus! {

/// Whether an airdrop was claimed.
#[derive(Clone, Copy, Debug, PartialEq, Eq, Structural)]
pub struct ClaimResponse {
    pub is_claimed: bool,
}

/// A query to a price feed.
#[derive(Clone, Debug, PartialEq, Eq)]
pub enum PriceFeedQuery {
    /// The prices of the symbols
    GetPrice { symbols: Vec<String> },
}

/// A price feed's prices, in the order of the symbols asked for.
#[derive(Clone, Debug, PartialEq, Eq)]
pub struct PriceFeedResponse {
    pub prices: Vec<u64>,
    pub timestamp: u64,
}

} // verus!
