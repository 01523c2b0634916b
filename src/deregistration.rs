//! Ending a grant early and settling it between beneficiary and master.

use vstd::prelude::*;

use crate::claim::claim_overflows;
use crate::denom::{Denom, DenomKey};
use crate::error::VestingError;
use crate::ledger::{account_ok, key_of, AccountView, Ledger, VestingAccount};
use crate::schedule::{lemma_vested_bounded, vested};
use crate::transfer::{build_transfer_instruction, transfer_view, TransferMsg, TransferView};

verus! {

/// What ending a grant early settled: the grant, what had vested, what was
/// still locked, and the transfers that pay both out.
#[derive(Clone, Debug, PartialEq, Eq)]
pub struct DeregisterResponse {
    pub address: String,
    pub vesting_denom: Denom,
    pub vesting_amount: u128,
    pub vested_amount: u128,
    pub left_vesting_amount: u128,
    pub messages: Vec<TransferMsg>,
}

/// Whether `caller` is the stored master of the entry `a`.
pub open spec fn authorized(caller: Seq<char>, a: AccountView) -> bool {
    a.master_address == Some(caller)
}

/// Whether `caller` may end the grant `entry` early.
pub fn is_authorized(caller: &String, entry: &VestingAccount) -> (r: bool)
    ensures
        r == authorized(caller@, entry@),
{
    match &entry.master_address {
        Some(m) => *m == *caller,
        None => false,
    }
}

/// The transfers of an early end: the vested but unclaimed part to
/// `vested_to`, then the locked part to `left_to`, each only when nonzero.
pub open spec fn settlement(
    d: DenomKey,
    claimable: u128,
    vested_to: Seq<char>,
    left: u128,
    left_to: Seq<char>,
) -> Seq<TransferView> {
    let first = if claimable != 0 {
        seq![transfer_view(d, vested_to, claimable)]
    } else {
        Seq::empty()
    };
    if left != 0 {
        first.push(transfer_view(d, left_to, left))
    } else {
        first
    }
}

/// Ends the grant of `address` for `denom` now, on behalf of `sender`, who
/// must be its master. The entry leaves the ledger; what has vested and is
/// unclaimed goes to `vested_token_recipient` (by default the beneficiary)
/// and what is still locked to `left_vesting_token_recipient` (by default
/// `sender`).
pub fn deregister_vesting_account(
    ledger: &mut Ledger,
    now: u64,
    sender: &String,
    address: &String,
    denom: &Denom,
    vested_token_recipient: Option<String>,
    left_vesting_token_recipient: Option<String>,
) -> (r: Result<DeregisterResponse, VestingError>)
    requires
        old(ledger).wf(),
    ensures
        final(ledger).wf(),
        ({
            let k = (address@, denom@);
            let a = old(ledger)@[k];
            if !old(ledger)@.contains_key(k) {
                final(ledger)@ == old(ledger)@ && match r {
                    Err(VestingError::NotFound(x)) => x@ == denom@,
                    _ => false,
                }
            } else if !authorized(sender@, a) {
                final(ledger)@ == old(ledger)@ && r matches Err(VestingError::Unauthorized)
            } else if claim_overflows(a, now) {
                final(ledger)@ == old(ledger)@.remove(k) && r matches Err(VestingError::Overflow)
            } else {
                let v = vested(a.schedule, now);
                let claimable = (v - a.claimed_amount) as u128;
                let left = (a.vesting_amount - v) as u128;
                let vested_to = match vested_token_recipient {
                    Some(x) => x@,
                    None => address@,
                };
                let left_to = match left_vesting_token_recipient {
                    Some(x) => x@,
                    None => sender@,
                };
                &&& final(ledger)@ == old(ledger)@.remove(k)
                &&& r matches Ok(resp) && {
                    &&& resp.address@ == address@
                    &&& resp.vesting_denom@ == denom@
                    &&& resp.vesting_amount == a.vesting_amount
                    &&& resp.vested_amount == v
                    &&& resp.left_vesting_amount == left
                    &&& claimable + left == a.vesting_amount - a.claimed_amount
                    &&& resp.messages@.map_values(|m: TransferMsg| m@) == settlement(
                        denom@,
                        claimable,
                        vested_to,
                        left,
                        left_to,
                    )
                }
            }
        }),
{
    let account = match ledger.get(address, denom) {
        None => {
            return Err(VestingError::NotFound(denom.duplicate()));
        },
        Some(a) => a,
    };
    if !is_authorized(sender, &account) {
        return Err(VestingError::Unauthorized);
    }
    let ghost k = (address@, denom@);
    proof {
        ledger.lemma_consistent();
        assert(account_ok(ledger@[k]) && key_of(ledger@[k]) == k);
        lemma_vested_bounded(account.vesting_schedule, now);
    }
    ledger.remove(address, denom);
    let vested_amount = match account.vesting_schedule.vested_amount(now) {
        None => {
            return Err(VestingError::Overflow);
        },
        Some(v) => v,
    };
    if vested_amount < account.claimed_amount {
        return Err(VestingError::Overflow);
    }
    let claimable = vested_amount - account.claimed_amount;
    let left = account.vesting_amount - vested_amount;
    let mut messages: Vec<TransferMsg> = Vec::new();
    if claimable != 0 {
        let recipient = match vested_token_recipient {
            Some(x) => x,
            None => address.clone(),
        };
        messages.push(build_transfer_instruction(&account.vesting_denom, claimable, &recipient));
    }
    let ghost first = messages@;
    if left != 0 {
        let recipient = match left_vesting_token_recipient {
            Some(x) => x,
            None => sender.clone(),
        };
        messages.push(build_transfer_instruction(&account.vesting_denom, left, &recipient));
        assert(messages@.map_values(|m: TransferMsg| m@) =~= first.map_values(|m: TransferMsg| m@).push(
            messages@[messages@.len() - 1]@,
        ));
    }
    assert(messages@.map_values(|m: TransferMsg| m@) =~= settlement(
        denom@,
        claimable,
        match vested_token_recipient {
            Some(x) => x@,
            None => address@,
        },
        left,
        match left_vesting_token_recipient {
            Some(x) => x@,
            None => sender@,
        },
    ));
    Ok(DeregisterResponse {
        address: address.clone(),
        vesting_denom: account.vesting_denom,
        vesting_amount: account.vesting_amount,
        vested_amount,
        left_vesting_amount: left,
        messages,
    })
}

/// Ending a consistent grant early creates and destroys nothing: what goes
/// to the beneficiary and what goes back are both nonnegative and add up to
/// the part of the grant not yet claimed.
pub proof fn lemma_deregister_conserves(a: AccountView, now: u64)
    requires
        account_ok(a),
        !claim_overflows(a, now),
    ensures
        0 <= vested(a.schedule, now) - a.claimed_amount,
        0 <= a.vesting_amount - vested(a.schedule, now),
        (vested(a.schedule, now) - a.claimed_amount) + (a.vesting_amount - vested(a.schedule, now))
            == a.vesting_amount - a.claimed_amount,
{
    lemma_vested_bounded(a.schedule, now);
}

} // verus!
