//! Registering a new grant against a deposit.

use vstd::arithmetic::div_mod::lemma_div_pos_is_pos;
use vstd::arithmetic::mul::lemma_mul_inequality;
use vstd::prelude::*;

use crate::denom::{Denom, DenomKey};
use crate::error::VestingError;
use crate::ledger::{account_ok, opt_view, AccountView, Ledger, VestingAccount};
use crate::schedule::{lemma_vested_bounded, num_intervals, schedule_total, vested, VestingSchedule};

verus! {

/// Funds that came with a call: a native currency code and an amount.
#[derive(Clone, Debug, PartialEq, Eq)]
pub struct Coin {
    pub denom: String,
    pub amount: u128,
}

/// What a successful registration records.
#[derive(Clone, Debug, PartialEq, Eq)]
pub struct RegisterResponse {
    pub master_address: Option<String>,
    pub address: String,
    pub vesting_denom: Denom,
    pub vesting_amount: u128,
}

/// The first reason, in the order they are checked, why `s` cannot be
/// registered at `now` with `deposit`; `None` when it can. A periodic
/// schedule releases its first interval at its start, so it must start
/// strictly after `now`; a linear one may start at `now`.
pub open spec fn schedule_error(s: VestingSchedule, now: u64, deposit: u128) -> Option<
    VestingError,
> {
    match s {
        VestingSchedule::LinearVesting { start_time, end_time, vesting_amount } => {
            if vesting_amount == 0 {
                Some(VestingError::ZeroAmount)
            } else if start_time < now {
                Some(VestingError::InvalidStartTime)
            } else if end_time <= start_time {
                Some(VestingError::InvalidEndTime)
            } else if vesting_amount != deposit {
                Some(VestingError::DepositMismatch)
            } else {
                None
            }
        },
        VestingSchedule::PeriodicVesting { start_time, end_time, vesting_interval, amount } => {
            if amount == 0 {
                Some(VestingError::ZeroAmount)
            } else if start_time <= now {
                Some(VestingError::InvalidStartTime)
            } else if end_time <= start_time {
                Some(VestingError::InvalidEndTime)
            } else if vesting_interval == 0 {
                Some(VestingError::ZeroInterval)
            } else if (end_time - start_time) % (vesting_interval as int) != 0 {
                Some(VestingError::IntervalNotDivisible)
            } else if amount * num_intervals(start_time, end_time, vesting_interval) > u128::MAX {
                Some(VestingError::Overflow)
            } else if amount * num_intervals(start_time, end_time, vesting_interval) != deposit {
                Some(VestingError::DepositMismatch)
            } else {
                None
            }
        },
    }
}

/// A schedule that passes the checks is well formed, starts no earlier than
/// `now`, and releases exactly the deposit.
pub proof fn lemma_accepted_schedule(s: VestingSchedule, now: u64, deposit: u128)
    requires
        schedule_error(s, now, deposit) is None,
    ensures
        s.well_formed(),
        s.start() >= now,
        schedule_total(s) == deposit,
        deposit > 0,
        s is PeriodicVesting ==> s.start() > now,
{
    if let VestingSchedule::PeriodicVesting { start_time, end_time, vesting_interval, amount } = s {
        let n = num_intervals(start_time, end_time, vesting_interval);
        lemma_div_pos_is_pos((end_time - start_time) as int, vesting_interval as int);
        lemma_mul_inequality(1, n, amount as int);
        assert(amount * n == n * amount) by (nonlinear_arith);
    }
}

/// A newly registered entry is consistent and, at every time `t`, has
/// claimed no more than has vested, which is no more than the grant.
pub proof fn lemma_new_entry_within(
    master_address: Option<Seq<char>>,
    address: Seq<char>,
    denom: DenomKey,
    s: VestingSchedule,
    now: u64,
    deposit: u128,
    t: u64,
)
    requires
        schedule_error(s, now, deposit) is None,
    ensures
        account_ok(new_entry(master_address, address, denom, deposit, s)),
        0 <= vested(s, t) <= deposit,
{
    lemma_accepted_schedule(s, now, deposit);
    lemma_vested_bounded(s, t);
}

/// Checks a proposed schedule against the current time and the deposit.
pub fn validate_schedule(s: &VestingSchedule, now: u64, deposit: u128) -> (r: Result<
    (),
    VestingError,
>)
    ensures
        r == (match schedule_error(*s, now, deposit) {
            Some(e) => Err(e),
            None => Ok(()),
        }),
{
    match *s {
        VestingSchedule::LinearVesting { start_time, end_time, vesting_amount } => {
            if vesting_amount == 0 {
                return Err(VestingError::ZeroAmount);
            }
            if start_time < now {
                return Err(VestingError::InvalidStartTime);
            }
            if end_time <= start_time {
                return Err(VestingError::InvalidEndTime);
            }
            if vesting_amount != deposit {
                return Err(VestingError::DepositMismatch);
            }
            Ok(())
        },
        VestingSchedule::PeriodicVesting { start_time, end_time, vesting_interval, amount } => {
            if amount == 0 {
                return Err(VestingError::ZeroAmount);
            }
            if start_time <= now {
                return Err(VestingError::InvalidStartTime);
            }
            if end_time <= start_time {
                return Err(VestingError::InvalidEndTime);
            }
            if vesting_interval == 0 {
                return Err(VestingError::ZeroInterval);
            }
            let time_period = end_time - start_time;
            if time_period % vesting_interval != 0 {
                return Err(VestingError::IntervalNotDivisible);
            }
            let num_interval: u128 = 1 + (time_period / vesting_interval) as u128;
            match amount.checked_mul(num_interval) {
                None => Err(VestingError::Overflow),
                Some(total) => {
                    if total != deposit {
                        Err(VestingError::DepositMismatch)
                    } else {
                        Ok(())
                    }
                },
            }
        },
    }
}

/// The entry that a successful registration stores.
pub open spec fn new_entry(
    master_address: Option<Seq<char>>,
    address: Seq<char>,
    denom: DenomKey,
    amount: u128,
    s: VestingSchedule,
) -> AccountView {
    AccountView {
        master_address,
        address,
        denom,
        vesting_amount: amount,
        schedule: s,
        claimed_amount: 0,
    }
}

/// Registers a grant of `deposit_amount` of `deposit_denom` to `address`
/// under `vesting_schedule`. Refused, with the ledger unchanged, when the
/// beneficiary already has an entry for the asset or the schedule fails its
/// checks.
pub fn register_vesting_account(
    ledger: &mut Ledger,
    now: u64,
    master_address: Option<String>,
    address: String,
    deposit_denom: Denom,
    deposit_amount: u128,
    vesting_schedule: VestingSchedule,
) -> (r: Result<RegisterResponse, VestingError>)
    requires
        old(ledger).wf(),
    ensures
        final(ledger).wf(),
        old(ledger)@.contains_key((address@, deposit_denom@)) ==> r == Err::<
            RegisterResponse,
            VestingError,
        >(VestingError::AlreadyExists),
        !old(ledger)@.contains_key((address@, deposit_denom@)) ==> match schedule_error(
            vesting_schedule,
            now,
            deposit_amount,
        ) {
            Some(e) => r == Err::<RegisterResponse, VestingError>(e),
            None => r is Ok,
        },
        r is Err ==> final(ledger)@ == old(ledger)@,
        r matches Ok(resp) ==> {
            &&& final(ledger)@ == old(ledger)@.insert(
                (address@, deposit_denom@),
                new_entry(
                    opt_view(master_address),
                    address@,
                    deposit_denom@,
                    deposit_amount,
                    vesting_schedule,
                ),
            )
            &&& opt_view(resp.master_address) == opt_view(master_address)
            &&& resp.address@ == address@
            &&& resp.vesting_denom@ == deposit_denom@
            &&& resp.vesting_amount == deposit_amount
        },
{
    if ledger.has(&address, &deposit_denom) {
        return Err(VestingError::AlreadyExists);
    }
    match validate_schedule(&vesting_schedule, now, deposit_amount) {
        Err(e) => {
            return Err(e);
        },
        Ok(()) => {},
    }
    proof {
        lemma_accepted_schedule(vesting_schedule, now, deposit_amount);
    }
    let response = RegisterResponse {
        master_address: match &master_address {
            Some(m) => Some(m.clone()),
            None => None,
        },
        address: address.clone(),
        vesting_denom: deposit_denom.duplicate(),
        vesting_amount: deposit_amount,
    };
    let account = VestingAccount {
        master_address,
        address,
        vesting_denom: deposit_denom,
        vesting_amount: deposit_amount,
        vesting_schedule,
        claimed_amount: 0,
    };
    assert(account_ok(account@));
    ledger.put(account);
    Ok(response)
}

/// Registers a grant paid in a native currency: the call must bring funds
/// of exactly one kind, which become the grant.
pub fn register_with_funds(
    ledger: &mut Ledger,
    now: u64,
    master_address: Option<String>,
    address: String,
    funds: &Vec<Coin>,
    vesting_schedule: VestingSchedule,
) -> (r: Result<RegisterResponse, VestingError>)
    requires
        old(ledger).wf(),
    ensures
        final(ledger).wf(),
        funds@.len() != 1 ==> r == Err::<RegisterResponse, VestingError>(
            VestingError::InvalidDeposit,
        ) && final(ledger)@ == old(ledger)@,
        funds@.len() == 1 ==> {
            let k = (address@, DenomKey::Native(funds@[0].denom@));
            let amount = funds@[0].amount;
            &&& old(ledger)@.contains_key(k) ==> r == Err::<RegisterResponse, VestingError>(
                VestingError::AlreadyExists,
            )
            &&& !old(ledger)@.contains_key(k) ==> match schedule_error(
                vesting_schedule,
                now,
                amount,
            ) {
                Some(e) => r == Err::<RegisterResponse, VestingError>(e),
                None => r is Ok,
            }
            &&& r is Err ==> final(ledger)@ == old(ledger)@
            &&& r is Ok ==> final(ledger)@ == old(ledger)@.insert(
                k,
                new_entry(opt_view(master_address), address@, k.1, amount, vesting_schedule),
            )
        },
{
    if funds.len() != 1 {
        return Err(VestingError::InvalidDeposit);
    }
    let coin = &funds[0];
    register_vesting_account(
        ledger,
        now,
        master_address,
        address,
        Denom::Native(coin.denom.clone()),
        coin.amount,
        vesting_schedule,
    )
}

} // verus!
