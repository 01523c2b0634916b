//! The read-only report of a beneficiary's entries.

use vstd::prelude::*;

use crate::claim::claim_overflows;
use crate::denom::{denom_lt, Denom};
use crate::error::VestingError;
use crate::ledger::{in_page, key_of, opt_denom, opt_view, AccountView, Ledger, LedgerKey, VestingAccount};
use crate::schedule::{vested, VestingSchedule};

verus! {

/// Page size used when the caller names none.
pub const DEFAULT_LIMIT: u32 = 10;

/// Largest page size served, whatever the caller asks for.
pub const MAX_LIMIT: u32 = 30;

/// One entry as reported by the query, computed at the time of the call.
#[derive(Clone, Debug, PartialEq, Eq)]
pub struct VestingData {
    pub master_address: Option<String>,
    pub vesting_denom: Denom,
    pub vesting_amount: u128,
    pub vested_amount: u128,
    pub vesting_schedule: VestingSchedule,
    pub claimable_amount: u128,
}

/// A page of one beneficiary's entries.
#[derive(Clone, Debug, PartialEq, Eq)]
pub struct VestingAccountResponse {
    pub address: String,
    pub vestings: Vec<VestingData>,
}

/// The page size served for a requested one.
pub open spec fn page_limit(limit: Option<u32>) -> int {
    let l = match limit {
        Some(l) => l,
        None => DEFAULT_LIMIT,
    };
    if l < MAX_LIMIT {
        l as int
    } else {
        MAX_LIMIT as int
    }
}

/// Whether `v` reports entry `a` at time `now`.
pub open spec fn reports(v: VestingData, a: AccountView, now: u64) -> bool {
    &&& opt_view(v.master_address) == a.master_address
    &&& v.vesting_denom@ == a.denom
    &&& v.vesting_amount == a.vesting_amount
    &&& v.vesting_schedule == a.schedule
    &&& v.vested_amount == vested(a.schedule, now)
    &&& v.claimable_amount == vested(a.schedule, now) - a.claimed_amount
}

fn report(account: VestingAccount, now: u64) -> (r: Result<VestingData, VestingError>)
    requires
        account.vesting_schedule.computable(),
    ensures
        match r {
            Ok(v) => !claim_overflows(account@, now) && reports(v, account@, now),
            Err(e) => claim_overflows(account@, now) && e is Overflow,
        },
{
    let vested_amount = match account.vesting_schedule.vested_amount(now) {
        None => {
            return Err(VestingError::Overflow);
        },
        Some(v) => v,
    };
    if vested_amount < account.claimed_amount {
        return Err(VestingError::Overflow);
    }
    Ok(VestingData {
        master_address: account.master_address,
        vesting_denom: account.vesting_denom,
        vesting_amount: account.vesting_amount,
        vested_amount,
        vesting_schedule: account.vesting_schedule,
        claimable_amount: vested_amount - account.claimed_amount,
    })
}

/// Reports, without changing the ledger, up to a page of `address`'s
/// entries whose asset comes after `start_after`, in ascending order of
/// asset key, each with what has vested and what can be claimed at `now`.
pub fn vesting_account(
    ledger: &Ledger,
    now: u64,
    address: String,
    start_after: Option<Denom>,
    limit: Option<u32>,
) -> (r: Result<VestingAccountResponse, VestingError>)
    requires
        ledger.wf(),
    ensures
        (forall|k: LedgerKey| #[trigger]
            in_page(ledger@, address@, opt_denom(start_after), k) ==> !claim_overflows(
                ledger@[k],
                now,
            )) ==> r is Ok,
        r matches Err(e) ==> e is Overflow,
        r matches Ok(resp) ==> {
            let vs = resp.vestings@;
            &&& resp.address@ == address@
            &&& vs.len() <= page_limit(limit)
            &&& forall|i: int|
                0 <= i < vs.len() ==> in_page(
                    ledger@,
                    address@,
                    opt_denom(start_after),
                    (address@, (#[trigger] vs[i]).vesting_denom@),
                ) && reports(vs[i], ledger@[(address@, vs[i].vesting_denom@)], now)
            &&& forall|i: int, j: int|
                0 <= i < j < vs.len() ==> denom_lt(
                    (#[trigger] vs[i]).vesting_denom@,
                    (#[trigger] vs[j]).vesting_denom@,
                )
            &&& forall|k: LedgerKey| #[trigger]
                in_page(ledger@, address@, opt_denom(start_after), k) && (vs.len() < page_limit(
                    limit,
                ) || (vs.len() > 0 && !denom_lt(vs.last().vesting_denom@, k.1))) ==> exists|i: int|
                    0 <= i < vs.len() && k == (address@, (#[trigger] vs[i]).vesting_denom@)
        },
{
    let requested = match limit {
        Some(l) => l,
        None => DEFAULT_LIMIT,
    };
    let lim = if requested < MAX_LIMIT {
        requested
    } else {
        MAX_LIMIT
    } as usize;
    let page = ledger.scan(&address, &start_after, lim);
    proof {
        ledger.lemma_consistent();
    }
    let mut vestings: Vec<VestingData> = Vec::new();
    let mut i: usize = 0;
    while i < page.len()
        invariant
            ledger.wf(),
            i <= page@.len(),
            vestings@.len() == i,
            forall|j: int|
                0 <= j < i ==> (#[trigger] vestings@[j]).vesting_denom@ == page@[j]@.denom && reports(
                    vestings@[j],
                    page@[j]@,
                    now,
                ),
            forall|j: int|
                0 <= j < page@.len() ==> in_page(
                    ledger@,
                    address@,
                    opt_denom(start_after),
                    key_of(#[trigger] page@[j]@),
                ) && ledger@[key_of(page@[j]@)] == page@[j]@,
            forall|k: LedgerKey| #[trigger]
                in_page(ledger@, address@, opt_denom(start_after), k) ==> key_of(ledger@[k]) == k
                    && ledger@[k].schedule.well_formed(),
        decreases page@.len() - i,
    {
        let ghost k = key_of(page@[i as int]@);
        assert(in_page(ledger@, address@, opt_denom(start_after), k));
        let entry = page[i].duplicate();
        let data = match report(entry, now) {
            Err(e) => {
                return Err(e);
            },
            Ok(v) => v,
        };
        vestings.push(data);
        i = i + 1;
    }
    assert forall|k: LedgerKey| #[trigger]
        in_page(ledger@, address@, opt_denom(start_after), k) && (vestings@.len() < page_limit(limit)
            || (vestings@.len() > 0 && !denom_lt(vestings@.last().vesting_denom@, k.1))) implies exists|
        i: int,
    | 0 <= i < vestings@.len() && k == (address@, (#[trigger] vestings@[i]).vesting_denom@) by {
        let j = choose|j: int| 0 <= j < page@.len() && key_of(#[trigger] page@[j]@) == k;
        assert(k == (address@, vestings@[j].vesting_denom@));
    }
    Ok(VestingAccountResponse { address, vestings })
}

} // verus!
