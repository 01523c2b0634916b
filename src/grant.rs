//! A contract holding a single grant, released by a fixed ratio per
//! interval, whose deposit may be staked.

use vstd::prelude::*;
use vstd::string::StringExecFns;

use crate::denom::{compare_str, Denom, DenomKey};
use crate::ratio::{decimal_mul, Decimal, DECIMAL_FRACTIONAL};
use crate::registration::Coin;
use crate::staking::{Config, HubContractExecuteMsg, RewardContractExecuteMsg, StakingInfo};
use crate::transfer::{build_transfer_instruction, transfer_view, TransferMsg};

verus! {

/// A single grant's schedule: after each full interval since `start_time` a
/// further `vesting_ratio` of the grant is released, and all of it at
/// `end_time`. Times are in seconds.
#[derive(Clone, Copy, Debug, PartialEq, Eq, Structural)]
pub struct VestingSchedule {
    pub start_time: u64,
    pub end_time: u64,
    pub vesting_interval: u64,
    pub vesting_ratio: Decimal,
}

/// The single grant held by the contract.
#[derive(Clone, Debug, PartialEq, Eq)]
pub struct VestingInfo {
    pub vesting_denom: Denom,
    pub vesting_amount: u128,
    pub vesting_schedule: VestingSchedule,
    pub claimed_amount: u128,
}

/// Why a single-grant operation was refused.
#[derive(Clone, Copy, Debug, PartialEq, Eq, Structural)]
pub enum GrantError {
    /// The deposit is not exactly one coin of the vesting currency.
    InvalidDeposit,
    ZeroAmount,
    InvalidStartTime,
    InvalidEndTime,
    ZeroInterval,
    IntervalNotDivisible,
    /// The ratio released per interval exceeds one.
    RatioTooLarge,
    /// The ratios of all intervals do not add up to exactly one.
    RatioMismatch,
    /// Staking was asked for without naming its contracts.
    StakingInfoMissing,
    Unauthorized,
    NothingToClaim,
    StakingDisabled,
    Overflow,
}

/// The currency that a grant is deposited in.
pub open spec fn vesting_currency() -> Seq<char> {
    seq!['u', 'l', 'u', 'n', 'a']
}

/// The currency that staking rewards are paid in.
pub open spec fn rewards_currency() -> Seq<char> {
    seq!['u', 'u', 's', 'd']
}

pub open spec fn grant_intervals(s: VestingSchedule) -> int {
    (s.end_time - s.start_time) / (s.vesting_interval as int)
}

/// The first reason, in the order they are checked, why `s` cannot hold a
/// grant of `amount` made at `now`; `None` when it can.
pub open spec fn grant_schedule_error(s: VestingSchedule, now: u64, amount: u128) -> Option<
    GrantError,
> {
    if amount == 0 {
        Some(GrantError::ZeroAmount)
    } else if s.start_time < now {
        Some(GrantError::InvalidStartTime)
    } else if s.end_time <= s.start_time {
        Some(GrantError::InvalidEndTime)
    } else if s.vesting_interval == 0 {
        Some(GrantError::ZeroInterval)
    } else if (s.end_time - s.start_time) % (s.vesting_interval as int) != 0 {
        Some(GrantError::IntervalNotDivisible)
    } else if s.vesting_ratio.atomics > DECIMAL_FRACTIONAL {
        Some(GrantError::RatioTooLarge)
    } else if grant_intervals(s) > u128::MAX || decimal_mul(s.vesting_ratio, grant_intervals(s) as u128)
        != 1 {
        Some(GrantError::RatioMismatch)
    } else {
        None
    }
}

/// The schedule can be evaluated: a positive interval and a ratio of at most one.
pub open spec fn grant_computable(s: VestingSchedule) -> bool {
    s.vesting_interval > 0 && s.vesting_ratio.atomics <= DECIMAL_FRACTIONAL
}

/// Released share of `amount` at `now`: nothing before the start, a whole
/// number of intervals' ratio until the end, and all of it from the end on.
pub open spec fn grant_vested(s: VestingSchedule, now: u64, amount: u128) -> int {
    if now >= s.end_time {
        amount as int
    } else if now < s.start_time {
        0
    } else {
        decimal_mul(s.vesting_ratio, amount) * ((now - s.start_time) / (s.vesting_interval as int))
    }
}

/// Whether computing the released share at `now` overflows 128 bits.
pub open spec fn grant_vesting_fails(s: VestingSchedule, now: u64, amount: u128) -> bool {
    grant_vested(s, now, amount) > u128::MAX
}

impl VestingSchedule {
    /// Checks the schedule against the current time and the granted amount.
    pub fn validate(&self, block_time: u64, vesting_amount: u128) -> (r: Result<(), GrantError>)
        ensures
            r == (match grant_schedule_error(*self, block_time, vesting_amount) {
                Some(e) => Err(e),
                None => Ok(()),
            }),
    {
        if vesting_amount == 0 {
            return Err(GrantError::ZeroAmount);
        }
        if self.start_time < block_time {
            return Err(GrantError::InvalidStartTime);
        }
        if self.end_time <= self.start_time {
            return Err(GrantError::InvalidEndTime);
        }
        if self.vesting_interval == 0 {
            return Err(GrantError::ZeroInterval);
        }
        let time_period = self.end_time - self.start_time;
        let num_interval = time_period / self.vesting_interval;
        if time_period % self.vesting_interval != 0 {
            return Err(GrantError::IntervalNotDivisible);
        }
        if self.vesting_ratio.atomics > DECIMAL_FRACTIONAL {
            return Err(GrantError::RatioTooLarge);
        }
        if self.vesting_ratio.mul_floor(num_interval as u128) != 1 {
            return Err(GrantError::RatioMismatch);
        }
        Ok(())
    }

    /// Released share of `vesting_amount` at `block_time`; `None` where the
    /// computation overflows.
    pub fn vested_amount(&self, block_time: u64, vesting_amount: u128) -> (r: Option<u128>)
        requires
            grant_computable(*self),
        ensures
            r.is_none() == grant_vesting_fails(*self, block_time, vesting_amount),
            r matches Some(v) ==> v == grant_vested(*self, block_time, vesting_amount),
    {
        if block_time >= self.end_time {
            return Some(vesting_amount);
        }
        if block_time < self.start_time {
            return Some(0);
        }
        let passed_interval = (block_time - self.start_time) / self.vesting_interval;
        self.vesting_ratio.mul_floor(vesting_amount).checked_mul(passed_interval as u128)
    }
}

/// A delegation of the deposit to the staking hub.
#[derive(Clone, Debug, PartialEq, Eq)]
pub struct BondInstruction {
    pub hub_contract: String,
    pub msg: HubContractExecuteMsg,
    pub funds: Coin,
}

/// The state a new single-grant contract starts with, and the delegation
/// to make when its deposit is staked.
#[derive(Clone, Debug, PartialEq, Eq)]
pub struct GrantSetup {
    pub config: Config,
    pub vesting_info: VestingInfo,
    pub bond: Option<BondInstruction>,
}

pub open spec fn deposit_error(funds: Seq<Coin>) -> bool {
    funds.len() != 1 || funds[0].denom@ != vesting_currency()
}

/// Sets up a single grant for `owner_address` from the deposit `funds`. When
/// staking is enabled the deposit is delegated and the grant is recorded in
/// the staking token, its amount to be filled in once the delegation is done.
pub fn instantiate(
    now: u64,
    owner_address: String,
    funds: &Vec<Coin>,
    vesting_schedule: VestingSchedule,
    enable_staking: bool,
    staking_info: Option<StakingInfo>,
) -> (r: Result<GrantSetup, GrantError>)
    ensures
        deposit_error(funds@) ==> r == Err::<GrantSetup, GrantError>(GrantError::InvalidDeposit),
        !deposit_error(funds@) ==> {
            let amount = funds@[0].amount;
            match grant_schedule_error(vesting_schedule, now, amount) {
                Some(e) => r == Err::<GrantSetup, GrantError>(e),
                None => if enable_staking && staking_info is None {
                    r == Err::<GrantSetup, GrantError>(GrantError::StakingInfoMissing)
                } else {
                    r matches Ok(setup) && {
                        &&& setup.config.owner_address@ == owner_address@
                        &&& setup.config.staking_enabled == enable_staking
                        &&& setup.config.staking_info == staking_info
                        &&& setup.vesting_info.vesting_schedule == vesting_schedule
                        &&& setup.vesting_info.claimed_amount == 0
                        &&& if enable_staking {
                            let info = staking_info->Some_0;
                            &&& setup.vesting_info.vesting_denom@ == DenomKey::Cw20(info.bluna_token@)
                            &&& setup.vesting_info.vesting_amount == 0
                            &&& setup.bond matches Some(b) && b.hub_contract@ == info.hub_contract@
                                && b.msg->Bond_validator@ == info.validator@ && b.funds.denom@
                                == vesting_currency() && b.funds.amount == amount
                        } else {
                            &&& setup.vesting_info.vesting_denom@ == DenomKey::Native(vesting_currency())
                            &&& setup.vesting_info.vesting_amount == amount
                            &&& setup.bond is None
                        }
                    }
                },
            }
        },
{
    proof {
        reveal_strlit("uluna");
        assert("uluna"@ =~= vesting_currency());
    }
    if funds.len() != 1 || compare_str(funds[0].denom.as_str(), "uluna") != 0 {
        return Err(GrantError::InvalidDeposit);
    }
    let amount = funds[0].amount;
    match vesting_schedule.validate(now, amount) {
        Err(e) => {
            return Err(e);
        },
        Ok(()) => {},
    }
    let (vesting_info, bond) = if enable_staking {
        match &staking_info {
            None => {
                return Err(GrantError::StakingInfoMissing);
            },
            Some(info) => (
                VestingInfo {
                    vesting_denom: Denom::Cw20(info.bluna_token.clone()),
                    vesting_amount: 0,
                    vesting_schedule,
                    claimed_amount: 0,
                },
                Some(
                    BondInstruction {
                        hub_contract: info.hub_contract.clone(),
                        msg: HubContractExecuteMsg::Bond { validator: info.validator.clone() },
                        funds: Coin { denom: String::from_str("uluna"), amount },
                    },
                ),
            ),
        }
    } else {
        (
            VestingInfo {
                vesting_denom: Denom::Native(String::from_str("uluna")),
                vesting_amount: amount,
                vesting_schedule,
                claimed_amount: 0,
            },
            None,
        )
    };
    Ok(
        GrantSetup {
            config: Config { owner_address, staking_enabled: enable_staking, staking_info },
            vesting_info,
            bond,
        },
    )
}

/// Reply identifier of the delegation made at set-up.
pub const BOND_REPLY_ID: u64 = 1;

/// Records, once the delegation of reply `id` is done, the staking-token
/// `balance` that the contract received as the granted amount.
pub fn apply_bond_reply(id: u64, vesting_info: &mut VestingInfo, balance: u128) -> (r: Result<
    (),
    GrantError,
>)
    ensures
        id != BOND_REPLY_ID ==> r == Err::<(), GrantError>(GrantError::Unauthorized)
            && *final(vesting_info) == *old(vesting_info),
        id == BOND_REPLY_ID ==> r is Ok && final(vesting_info).vesting_amount == balance
            && final(vesting_info).vesting_denom == old(vesting_info).vesting_denom
            && final(vesting_info).vesting_schedule == old(vesting_info).vesting_schedule
            && final(vesting_info).claimed_amount == old(vesting_info).claimed_amount,
{
    if id != BOND_REPLY_ID {
        return Err(GrantError::Unauthorized);
    }
    vesting_info.vesting_amount = balance;
    Ok(())
}

/// Hands the grant to `new_owner`; only the current owner may.
pub fn change_owner(config: &mut Config, sender: &String, new_owner: String) -> (r: Result<
    (),
    GrantError,
>)
    ensures
        old(config).owner_address@ != sender@ ==> r == Err::<(), GrantError>(
            GrantError::Unauthorized,
        ) && *final(config) == *old(config),
        old(config).owner_address@ == sender@ ==> r is Ok && final(config).owner_address@
            == new_owner@ && final(config).staking_enabled == old(config).staking_enabled
            && final(config).staking_info == old(config).staking_info,
{
    if config.owner_address != *sender {
        return Err(GrantError::Unauthorized);
    }
    config.owner_address = new_owner;
    Ok(())
}

/// What a claim of the single grant paid out.
#[derive(Clone, Debug, PartialEq, Eq)]
pub struct GrantClaim {
    pub recipient: String,
    pub message: TransferMsg,
    pub vesting_amount: u128,
    pub vested_amount: u128,
    pub claim_amount: u128,
}

/// Pays the owner (or `recipient`) what has been released and not yet paid.
/// Unlike the ledger's claim, a claim with nothing to pay is refused.
pub fn claim(
    config: &Config,
    vesting_info: &mut VestingInfo,
    now: u64,
    sender: &String,
    recipient: Option<String>,
) -> (r: Result<GrantClaim, GrantError>)
    requires
        grant_computable(old(vesting_info).vesting_schedule),
    ensures
        ({
            let s = old(vesting_info).vesting_schedule;
            let amount = old(vesting_info).vesting_amount;
            let claimed = old(vesting_info).claimed_amount;
            let v = grant_vested(s, now, amount);
            let to = match recipient {
                Some(x) => x@,
                None => sender@,
            };
            if config.owner_address@ != sender@ {
                r == Err::<GrantClaim, GrantError>(GrantError::Unauthorized)
            } else if grant_vesting_fails(s, now, amount) || v < claimed {
                r == Err::<GrantClaim, GrantError>(GrantError::Overflow)
            } else if v == claimed {
                r == Err::<GrantClaim, GrantError>(GrantError::NothingToClaim)
            } else {
                r matches Ok(c) && {
                    &&& c.recipient@ == to
                    &&& c.message@ == transfer_view(old(vesting_info).vesting_denom@, to, (v
                        - claimed) as u128)
                    &&& c.vesting_amount == amount
                    &&& c.vested_amount == v
                    &&& c.claim_amount == v - claimed
                    &&& final(vesting_info).claimed_amount == v
                }
            }
        }),
        r is Err ==> *final(vesting_info) == *old(vesting_info),
        final(vesting_info).vesting_denom == old(vesting_info).vesting_denom,
        final(vesting_info).vesting_amount == old(vesting_info).vesting_amount,
        final(vesting_info).vesting_schedule == old(vesting_info).vesting_schedule,
{
    if config.owner_address != *sender {
        return Err(GrantError::Unauthorized);
    }
    let recipient = match recipient {
        Some(x) => x,
        None => sender.clone(),
    };
    let vested_amount = match vesting_info.vesting_schedule.vested_amount(
        now,
        vesting_info.vesting_amount,
    ) {
        None => {
            return Err(GrantError::Overflow);
        },
        Some(v) => v,
    };
    if vested_amount < vesting_info.claimed_amount {
        return Err(GrantError::Overflow);
    }
    let claimable = vested_amount - vesting_info.claimed_amount;
    if claimable == 0 {
        return Err(GrantError::NothingToClaim);
    }
    vesting_info.claimed_amount = vested_amount;
    let message = build_transfer_instruction(&vesting_info.vesting_denom, claimable, &recipient);
    Ok(
        GrantClaim {
            recipient,
            message,
            vesting_amount: vesting_info.vesting_amount,
            vested_amount,
            claim_amount: claimable,
        },
    )
}

/// Staking rewards to pay out: the reward currency the contract holds, and
/// a withdrawal of what the reward contract has accrued.
#[derive(Clone, Debug, PartialEq, Eq)]
pub struct RewardsPayout {
    pub transfer: Option<TransferMsg>,
    /// The reward contract to call, and the call.
    pub withdrawal: Option<(String, RewardContractExecuteMsg)>,
}

/// Whether staking is on exactly when its contracts are known.
pub open spec fn config_ok(c: Config) -> bool {
    c.staking_enabled ==> c.staking_info is Some
}

/// Pays the owner (or `recipient`) the staking rewards: `held_rewards` of the
/// reward currency held by the contract, and `accrued_rewards` waiting in the
/// reward contract, each only when nonzero.
pub fn claim_rewards(
    config: &Config,
    sender: &String,
    recipient: Option<String>,
    held_rewards: u128,
    accrued_rewards: u128,
) -> (r: Result<RewardsPayout, GrantError>)
    requires
        config_ok(*config),
    ensures
        config.owner_address@ != sender@ ==> r == Err::<RewardsPayout, GrantError>(
            GrantError::Unauthorized,
        ),
        config.owner_address@ == sender@ && !config.staking_enabled ==> r == Err::<
            RewardsPayout,
            GrantError,
        >(GrantError::StakingDisabled),
        config.owner_address@ == sender@ && config.staking_enabled ==> (r matches Ok(p) && {
            let to = match recipient {
                Some(x) => x@,
                None => sender@,
            };
            &&& (held_rewards == 0 <==> p.transfer is None)
            &&& p.transfer matches Some(t) ==> t@ == transfer_view(
                DenomKey::Native(rewards_currency()),
                to,
                held_rewards,
            )
            &&& (accrued_rewards == 0 <==> p.withdrawal is None)
            &&& p.withdrawal matches Some(w) ==> w.0@ == config.staking_info->Some_0.reward_contract@
                && w.1->ClaimRewards_recipient is Some && w.1->ClaimRewards_recipient->Some_0@ == to
        }),
{
    if config.owner_address != *sender {
        return Err(GrantError::Unauthorized);
    }
    if !config.staking_enabled {
        return Err(GrantError::StakingDisabled);
    }
    let recipient = match recipient {
        Some(x) => x,
        None => sender.clone(),
    };
    proof {
        reveal_strlit("uusd");
        assert("uusd"@ =~= rewards_currency());
    }
    let transfer = if held_rewards != 0 {
        Some(build_transfer_instruction(&Denom::Native(String::from_str("uusd")), held_rewards, &recipient))
    } else {
        None
    };
    let withdrawal = if accrued_rewards != 0 {
        match &config.staking_info {
            Some(info) => Some(
                (
                    info.reward_contract.clone(),
                    RewardContractExecuteMsg::ClaimRewards { recipient: Some(recipient) },
                ),
            ),
            None => None,
        }
    } else {
        None
    };
    Ok(RewardsPayout { transfer, withdrawal })
}

/// The grant as reported, computed at the time of the call.
#[derive(Clone, Debug, PartialEq, Eq)]
pub struct VestingInfoResponse {
    pub owner_address: String,
    pub vesting_denom: Denom,
    pub vesting_amount: u128,
    pub vested_amount: u128,
    pub vesting_schedule: VestingSchedule,
    pub claimable_amount: u128,
    pub claimable_staking_rewards: u128,
}

/// Reports the grant at `now`; with staking on, the claimable rewards are
/// `held_rewards` plus `accrued_rewards`.
pub fn vesting_account(
    config: &Config,
    vesting_info: &VestingInfo,
    now: u64,
    held_rewards: u128,
    accrued_rewards: u128,
) -> (r: Result<VestingInfoResponse, GrantError>)
    requires
        grant_computable(vesting_info.vesting_schedule),
    ensures
        ({
            let s = vesting_info.vesting_schedule;
            let v = grant_vested(s, now, vesting_info.vesting_amount);
            let rewards = if config.staking_enabled {
                held_rewards + accrued_rewards
            } else {
                0
            };
            if grant_vesting_fails(s, now, vesting_info.vesting_amount) || v
                < vesting_info.claimed_amount || rewards > u128::MAX {
                r == Err::<VestingInfoResponse, GrantError>(GrantError::Overflow)
            } else {
                r matches Ok(resp) && {
                    &&& resp.owner_address@ == config.owner_address@
                    &&& resp.vesting_denom@ == vesting_info.vesting_denom@
                    &&& resp.vesting_amount == vesting_info.vesting_amount
                    &&& resp.vested_amount == v
                    &&& resp.vesting_schedule == s
                    &&& resp.claimable_amount == v - vesting_info.claimed_amount
                    &&& resp.claimable_staking_rewards == rewards
                }
            }
        }),
{
    let vested_amount = match vesting_info.vesting_schedule.vested_amount(
        now,
        vesting_info.vesting_amount,
    ) {
        None => {
            return Err(GrantError::Overflow);
        },
        Some(v) => v,
    };
    if vested_amount < vesting_info.claimed_amount {
        return Err(GrantError::Overflow);
    }
    let claimable_staking_rewards = if config.staking_enabled {
        match held_rewards.checked_add(accrued_rewards) {
            None => {
                return Err(GrantError::Overflow);
            },
            Some(x) => x,
        }
    } else {
        0
    };
    Ok(
        VestingInfoResponse {
            owner_address: config.owner_address.clone(),
            vesting_denom: vesting_info.vesting_denom.duplicate(),
            vesting_amount: vesting_info.vesting_amount,
            vested_amount,
            vesting_schedule: vesting_info.vesting_schedule,
            claimable_amount: vested_amount - vesting_info.claimed_amount,
            claimable_staking_rewards,
        },
    )
}

} // verus!
