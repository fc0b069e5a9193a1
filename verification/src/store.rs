//! A store of ledger entries by address, and the whole stake operation on it.
use crate::address::Address;
use crate::ledger::event_of;
use crate::ledger::vacant_entry;
use crate::ledger::StakeError;
use crate::ledger::StakeEvent;
use crate::ledger::Staker;
use crate::stake::do_stake;
use crate::stake::DerivedAddresses;
use crate::stake::TransferOutcome;
use crate::stake::UserStake;
use vstd::prelude::*;

verus! {

/// The record most lately stored under `key` in a list of slots.
spec fn lookup(slots: Seq<(Address, Staker)>, key: Seq<u8>) -> Option<Staker>
    decreases slots.len(),
{
    if slots.len() == 0 {
        None
    } else if slots.last().0@ == key {
        Some(slots.last().1)
    } else {
        lookup(slots.drop_last(), key)
    }
}

/// The slot at `at` is the last one under its key, so it is the one found.
proof fn lemma_lookup_last_match(slots: Seq<(Address, Staker)>, at: int)
    requires
        0 <= at < slots.len(),
        forall|j: int| at < j < slots.len() ==> slots[j].0@ != slots[at].0@,
    ensures
        lookup(slots, slots[at].0@) == Some(slots[at].1),
    decreases slots.len(),
{
    if at < slots.len() - 1 {
        lemma_lookup_last_match(slots.drop_last(), at);
    }
}

/// No slot under `key`, so nothing is found.
proof fn lemma_lookup_absent(slots: Seq<(Address, Staker)>, key: Seq<u8>)
    requires
        forall|j: int| 0 <= j < slots.len() ==> slots[j].0@ != key,
    ensures
        lookup(slots, key) is None,
    decreases slots.len(),
{
    if slots.len() > 0 {
        lemma_lookup_absent(slots.drop_last(), key);
    }
}

/// Replacing the record of one slot changes nothing under any other key.
proof fn lemma_lookup_other(
    slots: Seq<(Address, Staker)>,
    at: int,
    record: Staker,
    key: Seq<u8>,
)
    requires
        0 <= at < slots.len(),
        key != slots[at].0@,
    ensures
        lookup(slots.update(at, (slots[at].0, record)), key) == lookup(slots, key),
    decreases slots.len(),
{
    let changed = slots.update(at, (slots[at].0, record));
    if at < slots.len() - 1 {
        assert(changed.drop_last() =~= slots.drop_last().update(at, (slots[at].0, record)));
        lemma_lookup_other(slots.drop_last(), at, record, key);
    } else {
        assert(changed.drop_last() =~= slots.drop_last());
    }
}

/// A store of ledger entries. Its view is the map from the bytes of an
/// address to the entry stored under it, so there is one entry at most under
/// each address. Entries come into it and change only through a stake.
pub struct Ledger {
    slots: Vec<(Address, Staker)>,
}

impl View for Ledger {
    type V = Map<Seq<u8>, Staker>;

    closed spec fn view(&self) -> Map<Seq<u8>, Staker> {
        Map::new(
            |key: Seq<u8>| lookup(self.slots@, key) is Some,
            |key: Seq<u8>| lookup(self.slots@, key).unwrap(),
        )
    }
}

impl Ledger {
    /// The entry that a stake finds under `key`: the one stored there, or a
    /// vacant one.
    pub open spec fn resolved(&self, key: Seq<u8>) -> Staker {
        if self@.contains_key(key) {
            self@[key]
        } else {
            vacant_entry()
        }
    }

    /// What the whole stake operation makes of the entry under the supplied
    /// address, given the first fault among the supplied addresses: a fault
    /// refuses it before anything else is looked at, then the transfer's
    /// outcome and the stored entry decide.
    pub open spec fn outcome_given(
        &self,
        fault: Option<StakeError>,
        accounts: UserStake,
        amount: u64,
        transfer: TransferOutcome,
    ) -> Result<Staker, StakeError> {
        match fault {
            Some(e) => Err(e),
            None => accounts.with_staker(self.resolved(accounts.staker_key@)).outcome(
                amount,
                transfer,
            ),
        }
    }

    /// The contents of the store as the whole stake operation leaves them:
    /// with the new entry under the supplied address after a success, as
    /// they were after a refusal.
    pub open spec fn after_given(
        &self,
        fault: Option<StakeError>,
        accounts: UserStake,
        amount: u64,
        transfer: TransferOutcome,
    ) -> Map<Seq<u8>, Staker> {
        match self.outcome_given(fault, accounts, amount, transfer) {
            Ok(entry) => self@.insert(accounts.staker_key@, entry),
            Err(_) => self@,
        }
    }

    /// What the whole stake operation under `program_id` makes of the entry
    /// under the supplied address.
    pub open spec fn outcome(
        &self,
        program_id: Address,
        accounts: UserStake,
        amount: u64,
        transfer: TransferOutcome,
    ) -> Result<Staker, StakeError> {
        self.outcome_given(accounts.fault(program_id), accounts, amount, transfer)
    }

    /// The contents of the store as the whole stake operation under
    /// `program_id` leaves them.
    pub open spec fn after(
        &self,
        program_id: Address,
        accounts: UserStake,
        amount: u64,
        transfer: TransferOutcome,
    ) -> Map<Seq<u8>, Staker> {
        self.after_given(accounts.fault(program_id), accounts, amount, transfer)
    }

    /// An empty store.
    pub fn new() -> (r: Ledger)
        ensures
            r@ == Map::<Seq<u8>, Staker>::empty(),
    {
        let r = Ledger { slots: Vec::new() };
        proof {
            assert(r@ =~= Map::<Seq<u8>, Staker>::empty());
        }
        r
    }

    /// The index of the last slot under `key`.
    fn position(&self, key: &Address) -> (r: Option<usize>)
        ensures
            match r {
                Some(at) => at < self.slots@.len() && self.slots@[at as int].0@ == key@
                    && lookup(self.slots@, key@) == Some(self.slots@[at as int].1)
                    && forall|j: int|
                    at < j < self.slots@.len() ==> self.slots@[j].0@ != key@,
                None => lookup(self.slots@, key@) is None,
            },
    {
        let mut i: usize = self.slots.len();
        while i > 0
            invariant
                0 <= i <= self.slots@.len(),
                forall|j: int| i <= j < self.slots@.len() ==> self.slots@[j].0@ != key@,
            decreases i,
        {
            i -= 1;
            if self.slots[i].0 == *key {
                proof {
                    lemma_lookup_last_match(self.slots@, i as int);
                }
                return Some(i);
            }
        }
        proof {
            lemma_lookup_absent(self.slots@, key@);
        }
        None
    }

    /// The entry stored under `key`, if there is one.
    pub fn get(&self, key: &Address) -> (r: Option<Staker>)
        ensures
            r == (if self@.contains_key(key@) {
                Some(self@[key@])
            } else {
                None
            }),
    {
        match self.position(key) {
            Some(at) => Some(self.slots[at].1),
            None => None,
        }
    }

    /// The entry stored under `key`, or a vacant one where nothing is stored
    /// there. The store is left as it is.
    pub fn get_or_vacant(&self, key: &Address) -> (r: Staker)
        ensures
            r == self.resolved(key@),
    {
        match self.position(key) {
            Some(at) => self.slots[at].1,
            None => Staker::vacant(),
        }
    }

    /// Stores `record` under `key`, in place of what was stored there.
    fn put(&mut self, key: &Address, record: Staker)
        ensures
            final(self)@ == old(self)@.insert(key@, record),
    {
        match self.position(key) {
            Some(at) => {
                let held = self.slots[at].0;
                self.slots[at] = (held, record);
                proof {
                    let before = old(self).slots@;
                    let after = self.slots@;
                    assert(after =~= before.update(at as int, (before[at as int].0, record)));
                    lemma_lookup_last_match(after, at as int);
                    assert forall|k: Seq<u8>| k != key@ implies lookup(after, k) == lookup(
                        before,
                        k,
                    ) by {
                        lemma_lookup_other(before, at as int, record, k);
                    }
                }
            },
            None => {
                self.slots.push((*key, record));
                proof {
                    assert(self.slots@.drop_last() =~= old(self).slots@);
                }
            },
        }
        proof {
            assert(self@ =~= old(self)@.insert(key@, record));
        }
    }

    /// The whole stake operation on the entry stored under the supplied
    /// address, with the derived addresses given. The supplied addresses are
    /// first held against the derived ones; the entry is then taken from the
    /// store, a vacant one where nothing is stored there, and the stake is
    /// recorded in it. On success the new entry is stored and handed back in
    /// `accounts`, and the event to publish is returned. On any refusal store
    /// and accounts are left as they were. No entry under another address is
    /// ever touched.
    pub fn stake_against(
        &mut self,
        derived: &DerivedAddresses,
        accounts: &mut UserStake,
        amount: u64,
        transfer: TransferOutcome,
    ) -> (r: Result<StakeEvent, StakeError>)
        ensures
            final(self)@ == old(self).after_given(
                old(accounts).fault_given(*derived),
                *old(accounts),
                amount,
                transfer,
            ),
            match old(self).outcome_given(
                old(accounts).fault_given(*derived),
                *old(accounts),
                amount,
                transfer,
            ) {
                Ok(entry) => *final(accounts) == old(accounts).with_staker(entry) && r == Ok::<
                    StakeEvent,
                    StakeError,
                >(event_of(entry, amount)),
                Err(e) => *final(accounts) == *old(accounts) && r == Err::<
                    StakeEvent,
                    StakeError,
                >(e),
            },
            forall|key: Seq<u8>|
                key != old(accounts).staker_key@ ==> final(self)@.contains_key(key) == old(
                    self,
                )@.contains_key(key) && #[trigger] final(self)@[key] == old(self)@[key],
    {
        match accounts.check_against(derived) {
            Err(e) => {
                return Err(e);
            },
            Ok(_) => {},
        }
        let mut loaded = *accounts;
        loaded.staker = self.get_or_vacant(&accounts.staker_key);
        match do_stake(&mut loaded, amount, transfer) {
            Ok(event) => {
                self.put(&loaded.staker_key, loaded.staker);
                *accounts = loaded;
                Ok(event)
            },
            Err(e) => Err(e),
        }
    }

    /// The whole stake operation under `program_id` on the entry stored
    /// under the supplied address: the addresses are derived for user and
    /// mint, and the rest is done as with given addresses.
    pub fn stake(
        &mut self,
        program_id: &Address,
        accounts: &mut UserStake,
        amount: u64,
        transfer: TransferOutcome,
    ) -> (r: Result<StakeEvent, StakeError>)
        ensures
            final(self)@ == old(self).after(*program_id, *old(accounts), amount, transfer),
            match old(self).outcome(*program_id, *old(accounts), amount, transfer) {
                Ok(entry) => *final(accounts) == old(accounts).with_staker(entry) && r == Ok::<
                    StakeEvent,
                    StakeError,
                >(event_of(entry, amount)),
                Err(e) => *final(accounts) == *old(accounts) && r == Err::<
                    StakeEvent,
                    StakeError,
                >(e),
            },
            forall|key: Seq<u8>|
                key != old(accounts).staker_key@ ==> final(self)@.contains_key(key) == old(
                    self,
                )@.contains_key(key) && #[trigger] final(self)@[key] == old(self)@[key],
    {
        let derived = accounts.derive(program_id);
        self.stake_against(&derived, accounts, amount, transfer)
    }
}

} // verus!
