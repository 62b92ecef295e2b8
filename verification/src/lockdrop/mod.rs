//! The lockdrop: users lock liquidity pool tokens for a chosen duration and
//! earn a share of the NTRN incentives by weight, plus the rewards that the
//! staked liquidity earns.

pub mod types;
pub mod math;
pub mod lockup;
pub mod rewards;
pub mod queries;
pub mod migration;
