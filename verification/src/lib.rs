//! Verified core of the Neutron token generation event contracts: vesting
//! schedules, the lockdrop reward arithmetic, the token sale and the price feed.

pub mod numeric;
pub mod vesting;
pub mod lockdrop;
pub mod token_sale;
pub mod price_feed;
pub mod periphery;
pub mod usdc_converter;
pub mod ownership;
