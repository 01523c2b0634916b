//! Vesting accounting: schedules that release a fixed amount over time, a
//! ledger of per-account grants, and the register / claim / deregister
//! protocols that keep the ledger's amounts consistent.

pub mod claim;
pub mod denom;
pub mod deregistration;
pub mod error;
pub mod grant;
pub mod ledger;
pub mod query;
pub mod ratio;
pub mod registration;
pub mod schedule;
pub mod staking;
pub mod token;
pub mod transfer;
