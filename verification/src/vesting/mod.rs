//! Vesting accounts: schedules, the amounts they release, and the contract
//! operations that register, claim and remove them.

pub mod types;
pub mod schedule;
pub mod accounts;
pub mod admin;
pub mod builder;
pub mod pcl;
pub mod msg;
