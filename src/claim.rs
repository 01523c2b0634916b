//! Claiming what has vested: a batch over several assets, specified as a
//! fold of single-asset steps over the ledger.

use vstd::prelude::*;

use crate::denom::{Denom, DenomKey};
use crate::error::VestingError;
use crate::ledger::{account_ok, key_of, ledger_ok, AccountView, Ledger, LedgerKey, VestingAccount};
use crate::schedule::{lemma_vested_bounded, lemma_vested_monotone, vested, vesting_overflows};
use crate::transfer::{build_transfer_instruction, transfer_view, TransferMsg, TransferView};

verus! {

/// What one claimed asset records: the grant, what has vested so far and
/// what this claim paid out.
#[derive(Clone, Debug, PartialEq, Eq)]
pub struct ClaimRecord {
    pub vesting_denom: Denom,
    pub vesting_amount: u128,
    pub vested_amount: u128,
    pub claim_amount: u128,
}

pub struct ClaimRecordView {
    pub denom: DenomKey,
    pub vesting_amount: u128,
    pub vested_amount: u128,
    pub claim_amount: u128,
}

impl View for ClaimRecord {
    type V = ClaimRecordView;

    open spec fn view(&self) -> ClaimRecordView {
        ClaimRecordView {
            denom: self.vesting_denom@,
            vesting_amount: self.vesting_amount,
            vested_amount: self.vested_amount,
            claim_amount: self.claim_amount,
        }
    }
}

/// The outcome of a claim: the transfers to make and one record per asset
/// that paid out.
#[derive(Clone, Debug, PartialEq, Eq)]
pub struct ClaimResponse {
    pub address: String,
    pub messages: Vec<TransferMsg>,
    pub records: Vec<ClaimRecord>,
}

/// Why a claim of one asset failed.
pub enum ClaimFailure {
    Missing(DenomKey),
    Overflow,
}

/// Whether computing what `a` can pay out at `now` fails.
pub open spec fn claim_overflows(a: AccountView, now: u64) -> bool {
    vesting_overflows(a.schedule, now) || vested(a.schedule, now) < a.claimed_amount
}

/// `a` with everything vested at `now` marked as claimed.
pub open spec fn mark_claimed(a: AccountView, v: u128) -> AccountView {
    AccountView {
        master_address: a.master_address,
        address: a.address,
        denom: a.denom,
        vesting_amount: a.vesting_amount,
        schedule: a.schedule,
        claimed_amount: v,
    }
}

/// Claiming asset `d` for `sender` at `now`: the new ledger and, when
/// something was paid out, its record. An entry that is paid out in full
/// leaves the ledger.
pub open spec fn claim_step(
    m: Map<LedgerKey, AccountView>,
    now: u64,
    sender: Seq<char>,
    d: DenomKey,
) -> Result<(Map<LedgerKey, AccountView>, Option<ClaimRecordView>), ClaimFailure> {
    let k = (sender, d);
    if !m.contains_key(k) {
        Err(ClaimFailure::Missing(d))
    } else if claim_overflows(m[k], now) {
        Err(ClaimFailure::Overflow)
    } else {
        let a = m[k];
        let v = vested(a.schedule, now) as u128;
        let c = (v - a.claimed_amount) as u128;
        let rec = ClaimRecordView {
            denom: d,
            vesting_amount: a.vesting_amount,
            vested_amount: v,
            claim_amount: c,
        };
        if c == 0 {
            Ok((m, None))
        } else if v == a.vesting_amount {
            Ok((m.remove(k), Some(rec)))
        } else {
            Ok((m.insert(k, mark_claimed(a, v)), Some(rec)))
        }
    }
}

/// Claiming the assets `ds` in order; the first failure ends the claim.
pub open spec fn claim_all(
    m: Map<LedgerKey, AccountView>,
    now: u64,
    sender: Seq<char>,
    ds: Seq<DenomKey>,
) -> Result<(Map<LedgerKey, AccountView>, Seq<ClaimRecordView>), ClaimFailure>
    decreases ds.len(),
{
    if ds.len() == 0 {
        Ok((m, Seq::empty()))
    } else {
        match claim_all(m, now, sender, ds.drop_last()) {
            Err(f) => Err(f),
            Ok((m1, recs)) => match claim_step(m1, now, sender, ds.last()) {
                Err(f) => Err(f),
                Ok((m2, None)) => Ok((m2, recs)),
                Ok((m2, Some(rec))) => Ok((m2, recs.push(rec))),
            },
        }
    }
}

pub open spec fn denom_keys(denoms: Seq<Denom>) -> Seq<DenomKey> {
    denoms.map_values(|d: Denom| d@)
}

/// The transfers that pay out `recs` to `recipient`.
pub open spec fn claim_transfers(recs: Seq<ClaimRecordView>, recipient: Seq<char>) -> Seq<
    TransferView,
> {
    recs.map_values(|r: ClaimRecordView| transfer_view(r.denom, recipient, r.claim_amount))
}

/// A claim step keeps the ledger consistent.
pub proof fn lemma_claim_step_ok(m: Map<LedgerKey, AccountView>, now: u64, sender: Seq<char>, d: DenomKey)
    requires
        ledger_ok(m),
    ensures
        claim_step(m, now, sender, d) matches Ok((m2, _)) ==> ledger_ok(m2),
{
    let k = (sender, d);
    if m.contains_key(k) && !claim_overflows(m[k], now) {
        let a = m[k];
        lemma_vested_bounded(a.schedule, now);
        let v = vested(a.schedule, now) as u128;
        if v != a.vesting_amount {
            assert(account_ok(mark_claimed(a, v)));
            assert forall|k2: LedgerKey| #[trigger]
                m.insert(k, mark_claimed(a, v)).contains_key(k2) implies key_of(
                m.insert(k, mark_claimed(a, v))[k2]) == k2 && account_ok(
                m.insert(k, mark_claimed(a, v))[k2]) by {
                if k2 != k {
                    assert(m.contains_key(k2));
                }
            }
        } else {
            assert forall|k2: LedgerKey| #[trigger]
                m.remove(k).contains_key(k2) implies key_of(m.remove(k)[k2]) == k2 && account_ok(
                m.remove(k)[k2]) by {
                assert(m.contains_key(k2));
            }
        }
    }
}

proof fn lemma_claim_all_fails_from_prefix(
    m: Map<LedgerKey, AccountView>,
    now: u64,
    sender: Seq<char>,
    ds: Seq<DenomKey>,
    i: int,
    f: ClaimFailure,
)
    requires
        0 <= i <= ds.len(),
        claim_all(m, now, sender, ds.take(i)) == Err::<
            (Map<LedgerKey, AccountView>, Seq<ClaimRecordView>),
            ClaimFailure,
        >(f),
    ensures
        claim_all(m, now, sender, ds) == Err::<
            (Map<LedgerKey, AccountView>, Seq<ClaimRecordView>),
            ClaimFailure,
        >(f),
    decreases ds.len() - i,
{
    if i < ds.len() {
        assert(ds.take(i + 1).drop_last() =~= ds.take(i));
        lemma_claim_all_fails_from_prefix(m, now, sender, ds, i + 1, f);
    } else {
        assert(ds.take(i) =~= ds);
    }
}

/// Claims, for `sender`, what has vested and not yet been paid out of each
/// asset in `denoms`, in order, on `ledger`, paying it to `recipient`. An
/// asset with nothing to pay is skipped; the first failure ends the batch.
fn claim_each(
    ledger: &mut Ledger,
    now: u64,
    sender: &String,
    denoms: &Vec<Denom>,
    recipient: &String,
) -> (r: Result<ClaimResponse, VestingError>)
    requires
        old(ledger).wf(),
    ensures
        final(ledger).wf(),
        ({
            let rcp = recipient@;
            match claim_all(old(ledger)@, now, sender@, denom_keys(denoms@)) {
                Ok((m, recs)) => match r {
                    Ok(resp) => {
                        &&& final(ledger)@ == m
                        &&& resp.address@ == sender@
                        &&& resp.records@.map_values(|x: ClaimRecord| x@) == recs
                        &&& resp.messages@.map_values(|x: TransferMsg| x@) == claim_transfers(
                            recs,
                            rcp,
                        )
                    },
                    Err(_) => false,
                },
                Err(ClaimFailure::Missing(d)) => match r {
                    Err(VestingError::NotFound(x)) => x@ == d,
                    _ => false,
                },
                Err(ClaimFailure::Overflow) => r matches Err(VestingError::Overflow),
            }
        }),
{
    let ghost ds = denom_keys(denoms@);
    let ghost m0 = ledger@;
    let mut messages: Vec<TransferMsg> = Vec::new();
    let mut records: Vec<ClaimRecord> = Vec::new();
    let mut i: usize = 0;
    assert(ds.take(0) =~= Seq::<DenomKey>::empty());
    while i < denoms.len()
        invariant
            ledger.wf(),
            i <= denoms@.len(),
            ds == denom_keys(denoms@),
            ds.len() == denoms@.len(),
            m0 == old(ledger)@,
            claim_all(m0, now, sender@, ds.take(i as int)) matches Ok((m, recs)) && m == ledger@
                && records@.map_values(|x: ClaimRecord| x@) == recs
                && messages@.map_values(|x: TransferMsg| x@) == claim_transfers(recs, recipient@),
        decreases denoms@.len() - i,
    {
        let ghost recs = records@.map_values(|x: ClaimRecord| x@);
        let ghost m1 = ledger@;
        assert(ds.take(i + 1).drop_last() =~= ds.take(i as int));
        assert(ds.take(i + 1).last() == denoms@[i as int]@);
        let d = &denoms[i];
        proof {
            ledger.lemma_consistent();
            lemma_claim_step_ok(m1, now, sender@, d@);
        }
        match ledger.get(sender, d) {
            None => {
                proof {
                    lemma_claim_all_fails_from_prefix(m0, now, sender@, ds, i + 1, ClaimFailure::Missing(d@));
                }
                return Err(VestingError::NotFound(d.duplicate()));
            },
            Some(account) => {
                let ghost k = (sender@, d@);
                assert(account_ok(m1[k]) && key_of(m1[k]) == k);
                let vested_amount = match account.vesting_schedule.vested_amount(now) {
                    None => {
                        proof {
                            lemma_claim_all_fails_from_prefix(m0, now, sender@, ds, i + 1, ClaimFailure::Overflow);
                        }
                        return Err(VestingError::Overflow);
                    },
                    Some(v) => v,
                };
                if vested_amount < account.claimed_amount {
                    proof {
                        lemma_claim_all_fails_from_prefix(m0, now, sender@, ds, i + 1, ClaimFailure::Overflow);
                    }
                    return Err(VestingError::Overflow);
                }
                let claimable = vested_amount - account.claimed_amount;
                if claimable != 0 {
                    let record = ClaimRecord {
                        vesting_denom: account.vesting_denom.duplicate(),
                        vesting_amount: account.vesting_amount,
                        vested_amount,
                        claim_amount: claimable,
                    };
                    let msg = build_transfer_instruction(&account.vesting_denom, claimable, recipient);
                    if vested_amount == account.vesting_amount {
                        ledger.remove(sender, d);
                    } else {
                        let updated = VestingAccount {
                            master_address: account.master_address,
                            address: account.address,
                            vesting_denom: account.vesting_denom,
                            vesting_amount: account.vesting_amount,
                            vesting_schedule: account.vesting_schedule,
                            claimed_amount: vested_amount,
                        };
                        assert(updated@ == mark_claimed(m1[k], vested_amount));
                        proof {
                            lemma_vested_bounded(account.vesting_schedule, now);
                        }
                        ledger.put(updated);
                    }
                    let ghost old_msgs = messages@;
                    assert(claim_transfers(recs.push(record@), recipient@) =~= claim_transfers(
                        recs,
                        recipient@,
                    ).push(msg@));
                    let ghost old_recs = records@;
                    messages.push(msg);
                    records.push(record);
                    assert(records@.map_values(|x: ClaimRecord| x@) =~= old_recs.map_values(
                        |x: ClaimRecord| x@,
                    ).push(record@));
                    assert(messages@.map_values(|x: TransferMsg| x@) =~= claim_transfers(
                        recs.push(record@),
                        recipient@,
                    ));
                }
            },
        }
        i = i + 1;
    }
    assert(ds.take(i as int) =~= ds);
    Ok(ClaimResponse { address: sender.clone(), messages, records })
}

/// Claims, for `sender`, what has vested and not yet been paid out of each
/// asset in `denoms`, paying it to `recipient` (by default `sender`). An
/// asset with nothing to pay is skipped. An asset without an entry, or whose
/// amounts cannot be computed, fails the whole claim and leaves the ledger
/// as it was.
pub fn claim(
    ledger: &mut Ledger,
    now: u64,
    sender: &String,
    denoms: &Vec<Denom>,
    recipient: Option<String>,
) -> (r: Result<ClaimResponse, VestingError>)
    requires
        old(ledger).wf(),
    ensures
        final(ledger).wf(),
        r is Err ==> final(ledger)@ == old(ledger)@,
        ({
            let rcp = match recipient {
                Some(x) => x@,
                None => sender@,
            };
            match claim_all(old(ledger)@, now, sender@, denom_keys(denoms@)) {
                Ok((m, recs)) => match r {
                    Ok(resp) => {
                        &&& final(ledger)@ == m
                        &&& resp.address@ == sender@
                        &&& resp.records@.map_values(|x: ClaimRecord| x@) == recs
                        &&& resp.messages@.map_values(|x: TransferMsg| x@) == claim_transfers(
                            recs,
                            rcp,
                        )
                    },
                    Err(_) => false,
                },
                Err(ClaimFailure::Missing(d)) => match r {
                    Err(VestingError::NotFound(x)) => x@ == d,
                    _ => false,
                },
                Err(ClaimFailure::Overflow) => r matches Err(VestingError::Overflow),
            }
        }),
{
    let recipient = match recipient {
        Some(x) => x,
        None => sender.clone(),
    };
    let mut work = ledger.duplicate();
    let r = claim_each(&mut work, now, sender, denoms, &recipient);
    if r.is_ok() {
        *ledger = work;
    }
    r
}

/// Every entry has claimed no more than has vested at `now`, and nothing
/// has vested beyond the grant.
pub open spec fn claims_within(m: Map<LedgerKey, AccountView>, now: u64) -> bool {
    forall|k: LedgerKey| #[trigger]
        m.contains_key(k) ==> m[k].claimed_amount <= vested(m[k].schedule, now)
            <= m[k].vesting_amount
}

/// A successful claim at `now`, made when every entry satisfied the claim
/// bound at some earlier time `t0`, leaves every entry satisfying it at `now`:
/// so the bound holds after any sequence of claims in time order.
pub proof fn lemma_claim_preserves_bound(
    m: Map<LedgerKey, AccountView>,
    t0: u64,
    now: u64,
    sender: Seq<char>,
    ds: Seq<DenomKey>,
)
    requires
        ledger_ok(m),
        claims_within(m, t0),
        t0 <= now,
    ensures
        claim_all(m, now, sender, ds) matches Ok((m2, _)) ==> ledger_ok(m2) && claims_within(
            m2,
            now,
        ),
    decreases ds.len(),
{
    if ds.len() == 0 {
        assert forall|k: LedgerKey| #[trigger] m.contains_key(k) implies m[k].claimed_amount
            <= vested(m[k].schedule, now) <= m[k].vesting_amount by {
            lemma_vested_monotone(m[k].schedule, t0, now);
            lemma_vested_bounded(m[k].schedule, now);
        }
    } else {
        lemma_claim_preserves_bound(m, t0, now, sender, ds.drop_last());
        if let Ok((m1, _)) = claim_all(m, now, sender, ds.drop_last()) {
            lemma_claim_step_ok(m1, now, sender, ds.last());
            let k = (sender, ds.last());
            if let Ok((m2, _)) = claim_step(m1, now, sender, ds.last()) {
                assert forall|k2: LedgerKey| #[trigger] m2.contains_key(k2) implies m2[k2].claimed_amount
                    <= vested(m2[k2].schedule, now) <= m2[k2].vesting_amount by {
                    assert(m1.contains_key(k2));
                }
            }
        }
    }
}

/// Claiming the same asset twice at the same time: the first claim pays out
/// a nonzero amount, and the second then pays nothing and changes nothing
/// (for an entry not yet paid out in full, which the first claim removes).
pub proof fn lemma_claim_idempotent(
    m: Map<LedgerKey, AccountView>,
    now: u64,
    sender: Seq<char>,
    d: DenomKey,
)
    requires
        ledger_ok(m),
        m.contains_key((sender, d)),
        !claim_overflows(m[(sender, d)], now),
        vested(m[(sender, d)].schedule, now) > m[(sender, d)].claimed_amount,
        vested(m[(sender, d)].schedule, now) < m[(sender, d)].vesting_amount,
    ensures
        claim_all(m, now, sender, seq![d]) matches Ok((m1, recs)) && recs.len() == 1
            && recs[0].claim_amount > 0 && claim_all(m1, now, sender, seq![d]) == Ok::<
            (Map<LedgerKey, AccountView>, Seq<ClaimRecordView>),
            ClaimFailure,
        >((m1, Seq::empty())),
{
    let k = (sender, d);
    let ds = seq![d];
    assert(ds.drop_last() =~= Seq::<DenomKey>::empty());
    assert(ds.last() == d);
    let v = vested(m[k].schedule, now) as u128;
    let m1 = m.insert(k, mark_claimed(m[k], v));
    assert(claim_step(m, now, sender, d) matches Ok((mm, Some(_))) && mm == m1);
    assert(m1[k] == mark_claimed(m[k], v));
    assert(claim_step(m1, now, sender, d) matches Ok((mm, None)) && mm == m1);
    let e = Seq::<ClaimRecordView>::empty();
    assert(claim_all(m, now, sender, ds.drop_last()) == Ok::<
        (Map<LedgerKey, AccountView>, Seq<ClaimRecordView>),
        ClaimFailure,
    >((m, e)));
    assert(claim_all(m1, now, sender, ds.drop_last()) == Ok::<
        (Map<LedgerKey, AccountView>, Seq<ClaimRecordView>),
        ClaimFailure,
    >((m1, e)));
    assert(claim_all(m, now, sender, ds) matches Ok((mm, recs)) && mm == m1 && recs.len() == 1
        && recs[0].claim_amount > 0);
    assert(claim_all(m1, now, sender, ds) == Ok::<
        (Map<LedgerKey, AccountView>, Seq<ClaimRecordView>),
        ClaimFailure,
    >((m1, e)));
}

} // verus!
