//! Settings and outgoing messages of the single-grant contract.

use vstd::prelude::*;

verus! {

/// Settings of a single-grant vesting contract whose funds may be staked.
#[derive(Clone, Debug, PartialEq, Eq)]
pub struct Config {
    pub owner_address: String,
    pub staking_enabled: bool,
    pub staking_info: Option<StakingInfo>,
}

/// The contracts and validator that staked funds go through.
#[derive(Clone, Debug, PartialEq, Eq)]
pub struct StakingInfo {
    pub bluna_token: String,
    pub hub_contract: String,
    pub reward_contract: String,
    pub validator: String,
}

/// Calls into the reward contract.
#[derive(Clone, Debug, PartialEq, Eq)]
pub enum RewardContractExecuteMsg {
    /// Withdraws accrued rewards, to `recipient` or to the caller.
    ClaimRewards { recipient: Option<String> },
}

/// Queries of the reward contract.
#[derive(Clone, Debug, PartialEq, Eq)]
pub enum RewardContractQueryMsg {
    /// Rewards accrued to `address`.
    AccruedRewards { address: String },
}

/// Calls into the staking hub.
#[derive(Clone, Debug, PartialEq, Eq)]
pub enum HubContractExecuteMsg {
    /// Bonds the attached funds with `validator`.
    Bond { validator: String },
}

} // verus!
