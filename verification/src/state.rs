//! Accounts and the world state, as the machine sees them.
//!
//! Storage and state are lists of entries, read as maps.  A well-formed list
//! holds no key twice; putting a value under a key that is there replaces
//! the value in place.

use crate::word::{word_limit, Address, Word};
use vstd::prelude::*;

verus! {

/// One storage slot: a 256-bit key and the 256-bit value kept under it.
#[derive(Clone, Copy, Debug, PartialEq, Eq)]
pub struct Slot {
    pub key: Word,
    pub value: Word,
}

/// The map that a list of slots stands for.
pub open spec fn slots_view(slots: Seq<Slot>) -> Map<nat, nat>
    decreases slots.len(),
{
    if slots.len() == 0 {
        Map::empty()
    } else {
        slots_view(slots.drop_last()).insert(slots.last().key@, slots.last().value@)
    }
}

/// No two slots have the same key.
pub open spec fn distinct_keys(slots: Seq<Slot>) -> bool {
    forall|i: int, j: int| 0 <= i < j < slots.len() ==> slots[i].key@ != slots[j].key@
}

/// What a storage map holds under `key`: a key that is absent holds zero.
pub open spec fn slot_value(storage: Map<nat, nat>, key: nat) -> nat {
    if storage.contains_key(key) {
        storage[key]
    } else {
        0
    }
}

/// The storage of one account.
#[derive(Debug, PartialEq, Eq)]
pub struct Storage {
    pub slots: Vec<Slot>,
}

impl View for Storage {
    type V = Map<nat, nat>;

    open spec fn view(&self) -> Map<nat, nat> {
        slots_view(self.slots@)
    }
}

impl Clone for Storage {
    fn clone(&self) -> (copy: Storage)
        ensures
            copy.slots@ == self.slots@,
            copy@ == self@,
            copy.wf() == self.wf(),
    {
        let mut slots: Vec<Slot> = Vec::new();
        let mut i: usize = 0;
        while i < self.slots.len()
            invariant
                i <= self.slots.len(),
                slots@ == self.slots@.take(i as int),
            decreases self.slots.len() - i,
        {
            slots.push(self.slots[i]);
            assert(slots@ =~= self.slots@.take(i + 1));
            i += 1;
        }
        assert(slots@ =~= self.slots@);
        Storage { slots }
    }
}

impl Storage {
    /// Whether no key occurs twice.
    pub open spec fn wf(&self) -> bool {
        distinct_keys(self.slots@)
    }

    /// Storage with no slot set.
    pub fn new() -> (storage: Storage)
        ensures
            storage.wf(),
            storage@ == Map::<nat, nat>::empty(),
    {
        Storage { slots: Vec::new() }
    }

    /// How many slots are set.
    pub fn len(&self) -> (len: usize)
        ensures
            len == self.slots@.len(),
    {
        self.slots.len()
    }

    /// Puts `value` under `key`, in place of whatever was there.
    pub fn insert(&mut self, key: Word, value: Word)
        requires
            old(self).wf(),
        ensures
            final(self).wf(),
            final(self)@ == old(self)@.insert(key@, value@),
    {
        let slot = Slot { key, value };
        let mut i: usize = 0;
        while i < self.slots.len()
            invariant
                i <= self.slots.len(),
                self.slots@ == old(self).slots@,
                old(self).wf(),
                slot == (Slot { key, value }),
                forall|j: int| 0 <= j < i ==> self.slots@[j].key@ != key@,
            decreases self.slots.len() - i,
        {
            if self.slots[i].key.same(&key) {
                proof {
                    lemma_slots_view_update(self.slots@, i as int, slot);
                }
                self.slots[i] = slot;
                return ;
            }
            i += 1;
        }
        self.slots.push(slot);
        assert(self.slots@.drop_last() =~= old(self).slots@);
    }

    /// The value kept under `key`, if the key is there.
    pub fn get(&self, key: &Word) -> (value: Option<Word>)
        ensures
            match value {
                Some(v) => self@.contains_key(key@) && self@[key@] == v@,
                None => !self@.contains_key(key@),
            },
    {
        let mut i: usize = self.slots.len();
        assert(self.slots@.take(i as int) =~= self.slots@);
        while i > 0
            invariant
                i <= self.slots.len(),
                self@.contains_key(key@) == slots_view(self.slots@.take(i as int)).contains_key(
                    key@,
                ),
                self@.contains_key(key@) ==> self@[key@] == slots_view(
                    self.slots@.take(i as int),
                )[key@],
            decreases i,
        {
            i -= 1;
            assert(self.slots@.take(i + 1).drop_last() =~= self.slots@.take(i as int));
            if self.slots[i].key.same(key) {
                return Some(self.slots[i].value);
            }
        }
        assert(self.slots@.take(0) =~= Seq::<Slot>::empty());
        None
    }

    /// The value under `key`, zero where the key is absent.
    pub fn value_at(&self, key: &Word) -> (value: Word)
        ensures
            value@ == slot_value(self@, key@),
    {
        match self.get(key) {
            Some(v) => v,
            None => Word::zero(),
        }
    }
}

/// Replacing the slot of a key changes the map at that key alone, and
/// leaves the keys distinct.
pub proof fn lemma_slots_view_update(slots: Seq<Slot>, index: int, slot: Slot)
    requires
        distinct_keys(slots),
        0 <= index < slots.len(),
        slots[index].key@ == slot.key@,
    ensures
        distinct_keys(slots.update(index, slot)),
        slots_view(slots.update(index, slot)) == slots_view(slots).insert(slot.key@, slot.value@),
    decreases slots.len(),
{
    let updated = slots.update(index, slot);
    if index == slots.len() - 1 {
        assert(updated.drop_last() =~= slots.drop_last());
        assert(slots_view(updated) =~= slots_view(slots).insert(slot.key@, slot.value@));
    } else {
        assert(updated.drop_last() =~= slots.drop_last().update(index, slot));
        lemma_slots_view_update(slots.drop_last(), index, slot);
        assert(slots.last().key@ != slots[index].key@);
        assert(slots_view(updated) =~= slots_view(slots).insert(slot.key@, slot.value@));
    }
}

/// Every key of the map comes from one of the slots.
pub proof fn lemma_slots_view_key(slots: Seq<Slot>, key: nat)
    requires
        slots_view(slots).contains_key(key),
    ensures
        exists|index: int| 0 <= index < slots.len() && #[trigger] slots[index].key@ == key,
    decreases slots.len(),
{
    if slots.len() > 0 {
        if slots.last().key@ == key {
            assert(slots[slots.len() - 1].key@ == key);
        } else {
            lemma_slots_view_key(slots.drop_last(), key);
            let index = choose|index: int|
                0 <= index < slots.drop_last().len() && #[trigger] slots.drop_last()[index].key@
                    == key;
            assert(slots[index].key@ == key);
        }
    }
}

/// The mathematical content of an [`Account`].
pub struct AccountView {
    pub nonce: nat,
    pub balance: nat,
    pub storage: Map<nat, nat>,
    pub code: Seq<u8>,
}

/// The account that an address without an entry stands for: no balance, no
/// nonce, no code, nothing stored.
pub open spec fn empty_account() -> AccountView {
    AccountView { nonce: 0, balance: 0, storage: Map::empty(), code: Seq::empty() }
}

/// One ledger entry.
#[derive(Debug, PartialEq, Eq)]
pub struct Account {
    pub nonce: Word,
    pub balance: Word,
    pub storage: Storage,
    pub code: Vec<u8>,
}

impl View for Account {
    type V = AccountView;

    open spec fn view(&self) -> AccountView {
        AccountView {
            nonce: self.nonce@,
            balance: self.balance@,
            storage: self.storage@,
            code: self.code@,
        }
    }
}

impl Clone for Account {
    fn clone(&self) -> (copy: Account)
        ensures
            copy@ == self@,
            copy.wf() == self.wf(),
            copy.nonce == self.nonce,
            copy.balance == self.balance,
            copy.storage.slots@ == self.storage.slots@,
            copy.code@ == self.code@,
    {
        let code = self.code.clone();
        assert(code@ =~= self.code@);
        Account { nonce: self.nonce, balance: self.balance, storage: self.storage.clone(), code }
    }
}

impl Account {
    /// Whether the storage is well-formed.
    pub open spec fn wf(&self) -> bool {
        self.storage.wf()
    }

    /// The account of an address that the state does not mention.
    pub fn empty() -> (account: Account)
        ensures
            account.wf(),
            account@ == empty_account(),
    {
        Account {
            nonce: Word::zero(),
            balance: Word::zero(),
            storage: Storage::new(),
            code: Vec::new(),
        }
    }
}

/// An account together with the address it lives at.
#[derive(Debug, PartialEq, Eq)]
pub struct Entry {
    pub address: Address,
    pub account: Account,
}

/// The map that a list of entries stands for.
pub open spec fn entries_view(entries: Seq<Entry>) -> Map<nat, AccountView>
    decreases entries.len(),
{
    if entries.len() == 0 {
        Map::empty()
    } else {
        entries_view(entries.drop_last()).insert(entries.last().address@, entries.last().account@)
    }
}

/// No two entries have the same address.
pub open spec fn distinct_addresses(entries: Seq<Entry>) -> bool {
    forall|i: int, j: int|
        0 <= i < j < entries.len() ==> entries[i].address@ != entries[j].address@
}

/// The sum of the balances of the entries.
pub open spec fn total_balance(entries: Seq<Entry>) -> nat
    decreases entries.len(),
{
    if entries.len() == 0 {
        0
    } else {
        total_balance(entries.drop_last()) + entries.last().account.balance@
    }
}

/// Whether every nonce of the state can be raised `room` times and stay a word.
pub open spec fn nonces_have_room(state: Map<nat, AccountView>, room: nat) -> bool {
    forall|address: nat| #[trigger]
        state.contains_key(address) ==> state[address].nonce + room < word_limit()
}

/// The account that a state shows at `address`: the empty account where the
/// state has no entry for it.
pub open spec fn account_at(state: Map<nat, AccountView>, address: nat) -> AccountView {
    if state.contains_key(address) {
        state[address]
    } else {
        empty_account()
    }
}

/// The world state: accounts by address.
#[derive(Debug, PartialEq, Eq)]
pub struct State {
    pub entries: Vec<Entry>,
}

impl View for State {
    type V = Map<nat, AccountView>;

    open spec fn view(&self) -> Map<nat, AccountView> {
        entries_view(self.entries@)
    }
}

impl State {
    /// Whether no address occurs twice and every account is well-formed.
    pub open spec fn wf(&self) -> bool {
        &&& distinct_addresses(self.entries@)
        &&& forall|i: int| 0 <= i < self.entries@.len() ==> (#[trigger] self.entries@[i]).account.wf()
    }

    /// The sum of all balances.
    pub open spec fn total_balance(&self) -> nat {
        total_balance(self.entries@)
    }

    /// The addresses of the entries, in the order of the list.
    pub open spec fn order(&self) -> Seq<nat> {
        Seq::new(self.entries@.len(), |i: int| self.entries@[i].address@)
    }

    /// The state without any account.
    pub fn new() -> (state: State)
        ensures
            state.wf(),
            state@ == Map::<nat, AccountView>::empty(),
            state.order() == Seq::<nat>::empty(),
            state.total_balance() == 0,
    {
        let state = State { entries: Vec::new() };
        assert(state.order() =~= Seq::<nat>::empty());
        state
    }

    /// How many accounts the state has.
    pub fn len(&self) -> (len: usize)
        ensures
            len == self.entries@.len(),
    {
        self.entries.len()
    }

    /// Puts `account` at `address`, in place of whatever was there.  A new
    /// address goes to the end of the order; one that is there keeps its place.
    pub fn insert(&mut self, address: Address, account: Account)
        requires
            old(self).wf(),
            account.wf(),
        ensures
            final(self).wf(),
            final(self)@ == old(self)@.insert(address@, account@),
            final(self).order() == if old(self)@.contains_key(address@) {
                old(self).order()
            } else {
                old(self).order().push(address@)
            },
            final(self).total_balance() + account_at(old(self)@, address@).balance == old(
                self,
            ).total_balance() + account@.balance,
    {
        let ghost placed = Entry { address, account };
        let mut i: usize = 0;
        while i < self.entries.len()
            invariant
                i <= self.entries.len(),
                self.entries@ == old(self).entries@,
                old(self).wf(),
                account.wf(),
                placed == (Entry { address, account }),
                forall|j: int| 0 <= j < i ==> self.entries@[j].address@ != address@,
            decreases self.entries.len() - i,
        {
            if self.entries[i].address.same(&address) {
                proof {
                    lemma_entries_view_update(self.entries@, i as int, placed);
                    lemma_entries_view_contains(self.entries@, i as int);
                    lemma_entries_view_at(self.entries@, i as int);
                    lemma_total_balance_update(self.entries@, i as int, placed);
                }
                self.entries[i] = Entry { address, account };
                assert(self.order() =~= old(self).order());
                return ;
            }
            i += 1;
        }
        proof {
            if old(self)@.contains_key(address@) {
                lemma_entries_view_key(old(self).entries@, address@);
            }
        }
        self.entries.push(Entry { address, account });
        assert(self.entries@.drop_last() =~= old(self).entries@);
        assert(self.order() =~= old(self).order().push(address@));
    }

    /// The account at `address`, if the state has one.
    pub fn get(&self, address: &Address) -> (account: Option<&Account>)
        ensures
            match account {
                Some(a) => self@.contains_key(address@) && self@[address@] == a@ && (self.wf()
                    ==> a.wf()),
                None => !self@.contains_key(address@),
            },
    {
        let mut i: usize = self.entries.len();
        assert(self.entries@.take(i as int) =~= self.entries@);
        while i > 0
            invariant
                i <= self.entries.len(),
                self@.contains_key(address@) == entries_view(
                    self.entries@.take(i as int),
                ).contains_key(address@),
                self@.contains_key(address@) ==> self@[address@] == entries_view(
                    self.entries@.take(i as int),
                )[address@],
            decreases i,
        {
            i -= 1;
            assert(self.entries@.take(i + 1).drop_last() =~= self.entries@.take(i as int));
            if self.entries[i].address.same(address) {
                return Some(&self.entries[i].account);
            }
        }
        assert(self.entries@.take(0) =~= Seq::<Entry>::empty());
        None
    }

    /// The sum of all balances, or `None` where it needs more than 256 bits.
    pub fn balance_total(&self) -> (total: Option<Word>)
        ensures
            match total {
                Some(word) => word@ == self.total_balance() && self.total_balance() < word_limit(),
                None => self.total_balance() >= word_limit(),
            },
    {
        let mut sum = Word::zero();
        let mut i: usize = 0;
        assert(self.entries@.take(0) =~= Seq::<Entry>::empty());
        while i < self.entries.len()
            invariant
                i <= self.entries.len(),
                sum@ == total_balance(self.entries@.take(i as int)),
            decreases self.entries.len() - i,
        {
            proof {
                assert(self.entries@.take(i + 1).drop_last() =~= self.entries@.take(i as int));
                lemma_total_balance_prefix(self.entries@, i + 1);
            }
            sum = match sum.checked_add(&self.entries[i].account.balance) {
                Some(next) => next,
                None => {
                    return None;
                },
            };
            i += 1;
        }
        proof {
            assert(self.entries@.take(i as int) =~= self.entries@);
            crate::word::lemma_be_value_bound(sum.bytes@);
        }
        Some(sum)
    }

    /// Whether every nonce can be raised `room` times and stay a word.
    pub fn nonces_leave_room(&self, room: usize) -> (fits: bool)
        requires
            self.wf(),
        ensures
            fits == nonces_have_room(self@, room as nat),
    {
        let step = Word::from_usize(room);
        let mut i: usize = 0;
        while i < self.entries.len()
            invariant
                i <= self.entries.len(),
                self.wf(),
                step@ == room,
                forall|j: int|
                    0 <= j < i ==> (#[trigger] self.entries@[j]).account.nonce@ + room
                        < word_limit(),
            decreases self.entries.len() - i,
        {
            if self.entries[i].account.nonce.checked_add(&step).is_none() {
                proof {
                    lemma_entries_view_contains(self.entries@, i as int);
                    lemma_entries_view_at(self.entries@, i as int);
                }
                return false;
            }
            i += 1;
        }
        assert forall|address: nat| #[trigger] self@.contains_key(address) implies self@[address].nonce
            + room < word_limit() by {
            lemma_entries_view_key(self.entries@, address);
            let index = choose|index: int|
                0 <= index < self.entries@.len() && #[trigger] self.entries@[index].address@
                    == address;
            lemma_entries_view_at(self.entries@, index);
        }
        true
    }

    /// The account that the state shows at `address`: a copy of the entry,
    /// or the empty account.
    pub fn account_at(&self, address: &Address) -> (account: Account)
        ensures
            account@ == account_at(self@, address@),
            self.wf() ==> account.wf(),
    {
        match self.get(address) {
            Some(a) => a.clone(),
            None => Account::empty(),
        }
    }
}

/// Replacing the entry of an address changes the map at that address alone,
/// and leaves the addresses distinct.
pub proof fn lemma_entries_view_update(entries: Seq<Entry>, index: int, entry: Entry)
    requires
        distinct_addresses(entries),
        0 <= index < entries.len(),
        entries[index].address@ == entry.address@,
    ensures
        distinct_addresses(entries.update(index, entry)),
        entries_view(entries.update(index, entry)) == entries_view(entries).insert(
            entry.address@,
            entry.account@,
        ),
    decreases entries.len(),
{
    let updated = entries.update(index, entry);
    if index == entries.len() - 1 {
        assert(updated.drop_last() =~= entries.drop_last());
        assert(entries_view(updated) =~= entries_view(entries).insert(
            entry.address@,
            entry.account@,
        ));
    } else {
        assert(updated.drop_last() =~= entries.drop_last().update(index, entry));
        lemma_entries_view_update(entries.drop_last(), index, entry);
        assert(entries.last().address@ != entries[index].address@);
        assert(entries_view(updated) =~= entries_view(entries).insert(
            entry.address@,
            entry.account@,
        ));
    }
}

/// Where no address occurs twice, the map shows each entry's own account.
pub proof fn lemma_entries_view_at(entries: Seq<Entry>, index: int)
    requires
        distinct_addresses(entries),
        0 <= index < entries.len(),
    ensures
        entries_view(entries).contains_key(entries[index].address@),
        entries_view(entries)[entries[index].address@] == entries[index].account@,
    decreases entries.len(),
{
    if index < entries.len() - 1 {
        lemma_entries_view_at(entries.drop_last(), index);
    }
}

/// Replacing an entry changes the sum of the balances by the difference of
/// the two balances.
pub proof fn lemma_total_balance_update(entries: Seq<Entry>, index: int, entry: Entry)
    requires
        0 <= index < entries.len(),
    ensures
        total_balance(entries.update(index, entry)) + entries[index].account.balance@
            == total_balance(entries) + entry.account.balance@,
    decreases entries.len(),
{
    let updated = entries.update(index, entry);
    if index == entries.len() - 1 {
        assert(updated.drop_last() =~= entries.drop_last());
    } else {
        assert(updated.drop_last() =~= entries.drop_last().update(index, entry));
        lemma_total_balance_update(entries.drop_last(), index, entry);
    }
}

/// The balances of the first `n` entries sum to no more than all do.
pub proof fn lemma_total_balance_prefix(entries: Seq<Entry>, n: int)
    requires
        0 <= n <= entries.len(),
    ensures
        total_balance(entries.take(n)) <= total_balance(entries),
    decreases entries.len() - n,
{
    if n < entries.len() {
        lemma_total_balance_prefix(entries, n + 1);
        assert(entries.take(n + 1).drop_last() =~= entries.take(n));
    } else {
        assert(entries.take(n) =~= entries);
    }
}

/// Every address of the map comes from one of the entries.
pub proof fn lemma_entries_view_key(entries: Seq<Entry>, address: nat)
    requires
        entries_view(entries).contains_key(address),
    ensures
        exists|index: int|
            0 <= index < entries.len() && #[trigger] entries[index].address@ == address,
    decreases entries.len(),
{
    if entries.len() > 0 {
        if entries.last().address@ == address {
            assert(entries[entries.len() - 1].address@ == address);
        } else {
            lemma_entries_view_key(entries.drop_last(), address);
            let index = choose|index: int|
                0 <= index < entries.drop_last().len() && #[trigger] entries.drop_last()[index].address@
                    == address;
            assert(entries[index].address@ == address);
        }
    }
}

/// Every address with an entry is in the map.
pub proof fn lemma_entries_view_contains(entries: Seq<Entry>, index: int)
    requires
        0 <= index < entries.len(),
    ensures
        entries_view(entries).contains_key(entries[index].address@),
    decreases entries.len(),
{
    if index < entries.len() - 1 {
        lemma_entries_view_contains(entries.drop_last(), index);
    }
}

} // verus!
