//! The ledger of grants, keyed by beneficiary and asset, with an ordered,
//! resumable scan of one beneficiary's entries.

use vstd::prelude::*;

use crate::denom::{
    after, compare_denom, denom_lt, lemma_denom_lt_total, lemma_denom_lt_transitive, same_denom,
    Denom, DenomKey,
};
use crate::schedule::{schedule_total, VestingSchedule};

verus! {

/// One beneficiary's grant of one asset.
#[derive(Clone, Debug, PartialEq, Eq)]
pub struct VestingAccount {
    /// The only identity that may end the grant early, if any.
    pub master_address: Option<String>,
    pub address: String,
    pub vesting_denom: Denom,
    pub vesting_amount: u128,
    pub vesting_schedule: VestingSchedule,
    pub claimed_amount: u128,
}

/// A ledger entry as plain values.
pub struct AccountView {
    pub master_address: Option<Seq<char>>,
    pub address: Seq<char>,
    pub denom: DenomKey,
    pub vesting_amount: u128,
    pub schedule: VestingSchedule,
    pub claimed_amount: u128,
}

pub open spec fn opt_view(o: Option<String>) -> Option<Seq<char>> {
    match o {
        Some(s) => Some(s@),
        None => None,
    }
}

impl View for VestingAccount {
    type V = AccountView;

    open spec fn view(&self) -> AccountView {
        AccountView {
            master_address: opt_view(self.master_address),
            address: self.address@,
            denom: self.vesting_denom@,
            vesting_amount: self.vesting_amount,
            schedule: self.vesting_schedule,
            claimed_amount: self.claimed_amount,
        }
    }
}

/// Ledger key: the beneficiary and the asset.
pub type LedgerKey = (Seq<char>, DenomKey);

pub open spec fn key_of(a: AccountView) -> LedgerKey {
    (a.address, a.denom)
}

/// What every stored entry satisfies: a registrable schedule whose total is
/// the grant, and less claimed than granted (an entry paid out in full does
/// not stay in the ledger).
pub open spec fn account_ok(a: AccountView) -> bool {
    &&& a.schedule.well_formed()
    &&& a.vesting_amount == schedule_total(a.schedule)
    &&& a.claimed_amount < a.vesting_amount
}

/// Every entry sits under its own key and is consistent.
pub open spec fn ledger_ok(m: Map<LedgerKey, AccountView>) -> bool {
    forall|k: LedgerKey| #[trigger]
        m.contains_key(k) ==> key_of(m[k]) == k && account_ok(m[k])
}

/// Whether key `k` of `m` belongs to `address`'s entries after `cursor`.
pub open spec fn in_page(
    m: Map<LedgerKey, AccountView>,
    address: Seq<char>,
    cursor: Option<DenomKey>,
    k: LedgerKey,
) -> bool {
    &&& m.contains_key(k)
    &&& k.0 == address
    &&& after(cursor, k.1)
}

pub open spec fn opt_denom(d: Option<Denom>) -> Option<DenomKey> {
    match d {
        Some(x) => Some(x@),
        None => None,
    }
}

/// The vesting ledger: at most one entry per (beneficiary, asset).
pub struct Ledger {
    entries: Vec<VestingAccount>,
    model: Ghost<Map<LedgerKey, AccountView>>,
}

impl View for Ledger {
    type V = Map<LedgerKey, AccountView>;

    closed spec fn view(&self) -> Map<LedgerKey, AccountView> {
        self.model@
    }
}

impl VestingAccount {
    /// A copy of this entry.
    pub fn duplicate(&self) -> (r: VestingAccount)
        ensures
            r@ == self@,
    {
        VestingAccount {
            master_address: match &self.master_address {
                Some(m) => Some(m.clone()),
                None => None,
            },
            address: self.address.clone(),
            vesting_denom: self.vesting_denom.duplicate(),
            vesting_amount: self.vesting_amount,
            vesting_schedule: self.vesting_schedule,
            claimed_amount: self.claimed_amount,
        }
    }
}

impl Ledger {
    pub closed spec fn wf(&self) -> bool {
        &&& forall|i: int|
            0 <= i < self.entries@.len() ==> #[trigger] self.model@.contains_key(
                key_of(self.entries@[i]@),
            ) && self.model@[key_of(self.entries@[i]@)] == self.entries@[i]@
        &&& forall|k: LedgerKey| #[trigger]
            self.model@.contains_key(k) ==> exists|i: int|
                0 <= i < self.entries@.len() && key_of(#[trigger] self.entries@[i]@) == k
        &&& forall|i: int, j: int|
            0 <= i < j < self.entries@.len() ==> key_of(#[trigger] self.entries@[i]@) != key_of(
                #[trigger] self.entries@[j]@,
            )
        &&& ledger_ok(self.model@)
    }

    /// Every entry of a well-formed ledger is consistent.
    pub proof fn lemma_consistent(&self)
        requires
            self.wf(),
        ensures
            ledger_ok(self@),
    {
    }

    /// A copy of this ledger.
    pub fn duplicate(&self) -> (r: Ledger)
        requires
            self.wf(),
        ensures
            r.wf(),
            r@ == self@,
    {
        let mut entries: Vec<VestingAccount> = Vec::new();
        let mut i: usize = 0;
        while i < self.entries.len()
            invariant
                i <= self.entries@.len(),
                entries@.len() == i,
                forall|j: int| 0 <= j < i ==> (#[trigger] entries@[j])@ == self.entries@[j]@,
            decreases self.entries@.len() - i,
        {
            entries.push(self.entries[i].duplicate());
            i = i + 1;
        }
        let r = Ledger { entries, model: Ghost(self.model@) };
        assert forall|k: LedgerKey| #[trigger] r.model@.contains_key(k) implies exists|j: int|
            0 <= j < r.entries@.len() && key_of(#[trigger] r.entries@[j]@) == k by {
            let j = choose|j: int|
                0 <= j < self.entries@.len() && key_of(#[trigger] self.entries@[j]@) == k;
            assert(r.entries@[j]@ == self.entries@[j]@);
        }
        assert forall|a: int, b: int|
            0 <= a < b < r.entries@.len() implies key_of(#[trigger] r.entries@[a]@) != key_of(
                #[trigger] r.entries@[b]@,
            ) by {
            assert(r.entries@[a]@ == self.entries@[a]@);
            assert(r.entries@[b]@ == self.entries@[b]@);
        }
        r
    }

    /// An empty ledger.
    pub fn new() -> (r: Ledger)
        ensures
            r.wf(),
            r@ == Map::<LedgerKey, AccountView>::empty(),
    {
        Ledger { entries: Vec::new(), model: Ghost(Map::empty()) }
    }

    fn find(&self, address: &String, denom: &Denom) -> (r: Option<usize>)
        requires
            self.wf(),
        ensures
            match r {
                Some(i) => i < self.entries@.len() && key_of(self.entries@[i as int]@) == (
                address@,
                denom@,
                ),
                None => !self@.contains_key((address@, denom@)),
            },
    {
        let mut i: usize = 0;
        while i < self.entries.len()
            invariant
                self.wf(),
                i <= self.entries@.len(),
                forall|j: int| 0 <= j < i ==> key_of(#[trigger] self.entries@[j]@) != (address@, denom@),
            decreases self.entries@.len() - i,
        {
            let e = &self.entries[i];
            if e.address == *address && same_denom(&e.vesting_denom, denom) {
                return Some(i);
            }
            i = i + 1;
        }
        None
    }

    /// Whether `address` has an entry for `denom`.
    pub fn has(&self, address: &String, denom: &Denom) -> (r: bool)
        requires
            self.wf(),
        ensures
            r == self@.contains_key((address@, denom@)),
    {
        match self.find(address, denom) {
            Some(_) => true,
            None => false,
        }
    }

    /// A copy of the entry of `address` for `denom`, if there is one.
    pub fn get(&self, address: &String, denom: &Denom) -> (r: Option<VestingAccount>)
        requires
            self.wf(),
        ensures
            match r {
                Some(a) => self@.contains_key((address@, denom@)) && a@ == self@[(address@, denom@)],
                None => !self@.contains_key((address@, denom@)),
            },
    {
        match self.find(address, denom) {
            Some(i) => {
                assert(self.model@.contains_key(key_of(self.entries@[i as int]@)));
                Some(self.entries[i].duplicate())
            },
            None => None,
        }
    }

    /// Stores `account` under its own key, replacing any entry there.
    pub fn put(&mut self, account: VestingAccount)
        requires
            old(self).wf(),
            account_ok(account@),
        ensures
            final(self).wf(),
            final(self)@ == old(self)@.insert(key_of(account@), account@),
    {
        let ghost k = key_of(account@);
        let ghost old_entries = self.entries@;
        match self.find(&account.address, &account.vesting_denom) {
            Some(i) => {
                self.entries.set(i, account);
                self.model = Ghost(self.model@.insert(k, self.entries@[i as int]@));
                assert forall|j: int| 0 <= j < self.entries@.len() implies #[trigger]
                    self.model@.contains_key(key_of(self.entries@[j]@)) && self.model@[key_of(
                    self.entries@[j]@)] == self.entries@[j]@ by {
                    if j != i {
                        assert(self.entries@[j] == old_entries[j]);
                        assert(key_of(old_entries[j]@) != key_of(old_entries[i as int]@));
                        assert(old(self).model@.contains_key(key_of(old_entries[j]@)));
                    }
                }
                assert forall|a: int, b: int|
                    0 <= a < b < self.entries@.len() implies key_of(
                        #[trigger] self.entries@[a]@,
                    ) != key_of(#[trigger] self.entries@[b]@) by {
                    if a != i {
                        assert(self.entries@[a] == old_entries[a]);
                    }
                    if b != i {
                        assert(self.entries@[b] == old_entries[b]);
                    }
                }
                assert forall|k2: LedgerKey| #[trigger]
                    self.model@.contains_key(k2) implies exists|j: int|
                        0 <= j < self.entries@.len() && key_of(#[trigger] self.entries@[j]@)
                            == k2 by {
                    if k2 != k {
                        let j = choose|j: int|
                            0 <= j < old_entries.len() && key_of(#[trigger] old_entries[j]@) == k2;
                        assert(self.entries@[j] == old_entries[j]);
                    } else {
                        assert(key_of(self.entries@[i as int]@) == k2);
                    }
                }
            },
            None => {
                self.entries.push(account);
                let ghost n = (self.entries@.len() - 1) as int;
                self.model = Ghost(self.model@.insert(k, self.entries@[n]@));
                assert forall|j: int| 0 <= j < self.entries@.len() implies #[trigger]
                    self.model@.contains_key(key_of(self.entries@[j]@)) && self.model@[key_of(
                    self.entries@[j]@)] == self.entries@[j]@ by {
                    if j != n {
                        assert(self.entries@[j] == old_entries[j]);
                        assert(old(self).model@.contains_key(key_of(old_entries[j]@)));
                    }
                }
                assert forall|k2: LedgerKey| #[trigger]
                    self.model@.contains_key(k2) implies exists|j: int|
                        0 <= j < self.entries@.len() && key_of(#[trigger] self.entries@[j]@)
                            == k2 by {
                    if k2 != k {
                        let j = choose|j: int|
                            0 <= j < old_entries.len() && key_of(#[trigger] old_entries[j]@) == k2;
                        assert(self.entries@[j] == old_entries[j]);
                    } else {
                        assert(key_of(self.entries@[n]@) == k2);
                    }
                }
                assert forall|a: int, b: int|
                    0 <= a < b < self.entries@.len() implies key_of(
                        #[trigger] self.entries@[a]@,
                    ) != key_of(#[trigger] self.entries@[b]@) by {
                    if b == n {
                        assert(self.entries@[a] == old_entries[a]);
                    } else {
                        assert(self.entries@[a] == old_entries[a]);
                        assert(self.entries@[b] == old_entries[b]);
                    }
                }
            },
        }
        assert(self.model@ =~= old(self)@.insert(k, account@));
    }

    /// Removes the entry of `address` for `denom`, if there is one.
    pub fn remove(&mut self, address: &String, denom: &Denom)
        requires
            old(self).wf(),
        ensures
            final(self).wf(),
            final(self)@ == old(self)@.remove((address@, denom@)),
    {
        let ghost k = (address@, denom@);
        let ghost old_entries = self.entries@;
        match self.find(address, denom) {
            Some(i) => {
                self.entries.remove(i);
                self.model = Ghost(self.model@.remove(k));
                assert forall|j: int| 0 <= j < self.entries@.len() implies #[trigger]
                    self.model@.contains_key(key_of(self.entries@[j]@)) && self.model@[key_of(
                    self.entries@[j]@)] == self.entries@[j]@ by {
                    if j < i {
                        assert(self.entries@[j] == old_entries[j]);
                    } else {
                        assert(self.entries@[j] == old_entries[j + 1]);
                    }
                }
                assert forall|k2: LedgerKey| #[trigger]
                    self.model@.contains_key(k2) implies exists|j: int|
                        0 <= j < self.entries@.len() && key_of(#[trigger] self.entries@[j]@)
                            == k2 by {
                    let j = choose|j: int|
                        0 <= j < old_entries.len() && key_of(#[trigger] old_entries[j]@) == k2;
                    if j < i {
                        assert(self.entries@[j] == old_entries[j]);
                    } else {
                        assert(j != i);
                        assert(self.entries@[j - 1] == old_entries[j]);
                    }
                }
                assert forall|a: int, b: int|
                    0 <= a < b < self.entries@.len() implies key_of(
                        #[trigger] self.entries@[a]@,
                    ) != key_of(#[trigger] self.entries@[b]@) by {
                    let oa = if a < i { a } else { a + 1 };
                    let ob = if b < i { b } else { b + 1 };
                    assert(self.entries@[a] == old_entries[oa]);
                    assert(self.entries@[b] == old_entries[ob]);
                }
            },
            None => {
                assert(self.model@ =~= self.model@.remove(k));
            },
        }
    }

    /// Up to `limit` entries of `address` whose asset comes after
    /// `start_after`, in ascending order of asset key, with no entry skipped.
    pub fn scan(&self, address: &String, start_after: &Option<Denom>, limit: usize) -> (r: Vec<
        VestingAccount,
    >)
        requires
            self.wf(),
        ensures
            r@.len() <= limit,
            forall|i: int|
                0 <= i < r@.len() ==> in_page(
                    self@,
                    address@,
                    opt_denom(*start_after),
                    key_of(#[trigger] r@[i]@),
                ) && self@[key_of(r@[i]@)] == r@[i]@,
            forall|i: int, j: int|
                0 <= i < j < r@.len() ==> denom_lt(#[trigger] r@[i]@.denom, #[trigger] r@[j]@.denom),
            forall|k: LedgerKey| #[trigger]
                in_page(self@, address@, opt_denom(*start_after), k) && (r@.len() < limit || (r@.len()
                    > 0 && !denom_lt(r@.last()@.denom, k.1))) ==> exists|i: int|
                    0 <= i < r@.len() && key_of(#[trigger] r@[i]@) == k,
    {
        let ghost start = opt_denom(*start_after);
        let mut r: Vec<VestingAccount> = Vec::new();
        let mut last: Option<Denom> = match start_after {
            Some(d) => Some(d.duplicate()),
            None => None,
        };
        let mut exhausted = false;
        while r.len() < limit && !exhausted
            invariant
                self.wf(),
                r@.len() <= limit,
                forall|i: int|
                    0 <= i < r@.len() ==> in_page(self@, address@, start, key_of(#[trigger] r@[i]@))
                        && self@[key_of(r@[i]@)] == r@[i]@,
                forall|i: int, j: int|
                    0 <= i < j < r@.len() ==> denom_lt(
                        #[trigger] r@[i]@.denom,
                        #[trigger] r@[j]@.denom,
                    ),
                opt_denom(last) == (if r@.len() == 0 {
                    start
                } else {
                    Some(r@.last()@.denom)
                }),
                forall|k: LedgerKey| #[trigger]
                    in_page(self@, address@, start, k) && (exhausted || !after(opt_denom(last), k.1))
                        ==> exists|i: int| 0 <= i < r@.len() && key_of(#[trigger] r@[i]@) == k,
                exhausted ==> r@.len() < limit,
            decreases (limit - r@.len()) * 2 + if exhausted {
                0int
            } else {
                1int
            },
        {
            let ghost cur = opt_denom(last);
            let mut best: Option<usize> = None;
            let mut i: usize = 0;
            while i < self.entries.len()
                invariant
                    self.wf(),
                    i <= self.entries@.len(),
                    cur == opt_denom(last),
                    match best {
                        Some(b) => b < i && self.entries@[b as int]@.address == address@ && after(
                            cur,
                            self.entries@[b as int]@.denom,
                        ) && forall|j: int|
                            0 <= j < i && (#[trigger] self.entries@[j]@).address == address@
                                && after(cur, self.entries@[j]@.denom) ==> !denom_lt(
                                self.entries@[j]@.denom,
                                self.entries@[b as int]@.denom,
                            ),
                        None => forall|j: int|
                            0 <= j < i && (#[trigger] self.entries@[j]@).address == address@
                                ==> !after(cur, self.entries@[j]@.denom),
                    },
                decreases self.entries@.len() - i,
            {
                let e = &self.entries[i];
                let candidate = e.address == *address && match &last {
                    Some(l) => compare_denom(l, &e.vesting_denom) < 0,
                    None => true,
                };
                if candidate {
                    match best {
                        Some(b) => {
                            if compare_denom(&e.vesting_denom, &self.entries[b].vesting_denom) < 0 {
                                proof {
                                    assert forall|j: int|
                                        0 <= j < i + 1 && (#[trigger] self.entries@[j]@).address
                                            == address@ && after(cur, self.entries@[j]@.denom)
                                            implies !denom_lt(
                                        self.entries@[j]@.denom,
                                        self.entries@[i as int]@.denom,
                                    ) by {
                                        lemma_denom_lt_total(
                                            self.entries@[j]@.denom,
                                            self.entries@[i as int]@.denom,
                                        );
                                        if j < i && denom_lt(
                                            self.entries@[j]@.denom,
                                            self.entries@[i as int]@.denom,
                                        ) {
                                            lemma_denom_lt_transitive(
                                                self.entries@[j]@.denom,
                                                self.entries@[i as int]@.denom,
                                                self.entries@[b as int]@.denom,
                                            );
                                        }
                                    }
                                }
                                best = Some(i);
                            } else {
                                proof {
                                    lemma_denom_lt_total(
                                        self.entries@[i as int]@.denom,
                                        self.entries@[b as int]@.denom,
                                    );
                                }
                            }
                        },
                        None => {
                            proof {
                                lemma_denom_lt_total(
                                    self.entries@[i as int]@.denom,
                                    self.entries@[i as int]@.denom,
                                );
                            }
                            best = Some(i);
                        },
                    }
                }
                i = i + 1;
            }
            match best {
                None => {
                    proof {
                        assert forall|k: LedgerKey| #[trigger]
                            in_page(self@, address@, start, k) implies exists|i: int|
                                0 <= i < r@.len() && key_of(#[trigger] r@[i]@) == k by {
                            if after(cur, k.1) {
                                let j = choose|j: int|
                                    0 <= j < self.entries@.len() && key_of(
                                        #[trigger] self.entries@[j]@,
                                    ) == k;
                                assert(self.entries@[j]@.address == address@);
                            }
                        }
                    }
                    exhausted = true;
                },
                Some(b) => {
                    let e = self.entries[b].duplicate();
                    let ghost m = e@.denom;
                    let ghost old_r = r@;
                    proof {
                        assert(self.model@.contains_key(key_of(self.entries@[b as int]@)));
                        if r@.len() > 0 && start is Some {
                            assert(in_page(self@, address@, start, key_of(r@[r@.len() - 1]@)));
                            lemma_denom_lt_transitive(start->Some_0, r@.last()@.denom, m);
                        }
                    }
                    last = Some(e.vesting_denom.duplicate());
                    r.push(e);
                    proof {
                        assert forall|i: int|
                            0 <= i < r@.len() implies in_page(
                                self@,
                                address@,
                                start,
                                key_of(#[trigger] r@[i]@),
                            ) && self@[key_of(r@[i]@)] == r@[i]@ by {
                            if i < old_r.len() {
                                assert(r@[i] == old_r[i]);
                            }
                        }
                        assert forall|i: int, j: int|
                            0 <= i < j < r@.len() implies denom_lt(
                                #[trigger] r@[i]@.denom,
                                #[trigger] r@[j]@.denom,
                            ) by {
                            assert(r@[i] == old_r[i]);
                            if j < old_r.len() {
                                assert(r@[j] == old_r[j]);
                            } else if i < old_r.len() - 1 {
                                assert(old_r.last() == old_r[old_r.len() - 1]);
                                lemma_denom_lt_transitive(
                                    old_r[i]@.denom,
                                    old_r.last()@.denom,
                                    m,
                                );
                            }
                        }
                        assert forall|k: LedgerKey| #[trigger]
                            in_page(self@, address@, start, k) && !after(opt_denom(last), k.1)
                                implies exists|i: int|
                                0 <= i < r@.len() && key_of(#[trigger] r@[i]@) == k by {
                            lemma_denom_lt_total(m, k.1);
                            if after(cur, k.1) {
                                let j = choose|j: int|
                                    0 <= j < self.entries@.len() && key_of(
                                        #[trigger] self.entries@[j]@,
                                    ) == k;
                                assert(self.entries@[j]@.address == address@);
                                assert(k.1 == m);
                                assert(key_of(r@[old_r.len() as int]@) == k);
                            } else {
                                let i = choose|i: int|
                                    0 <= i < old_r.len() && key_of(#[trigger] old_r[i]@) == k;
                                assert(r@[i] == old_r[i]);
                            }
                        }
                    }
                },
            }
        }
        assert forall|k: LedgerKey| #[trigger]
            in_page(self@, address@, start, k) && (r@.len() < limit || (r@.len() > 0 && !denom_lt(
                r@.last()@.denom,
                k.1,
            ))) implies exists|i: int| 0 <= i < r@.len() && key_of(#[trigger] r@[i]@) == k by {
            if !exhausted && r@.len() > 0 {
                assert(!after(opt_denom(last), k.1));
            }
        }
        r
    }
}

} // verus!
