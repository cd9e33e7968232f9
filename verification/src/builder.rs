//! From the accounts of a fixture to the accounts of the machine.
//!
//! A fixture writes numbers of any size; the machine holds 256-bit words.
//! A list of accounts converts as a whole or not at all: the first number
//! that does not fit, in the order of the list, stops the conversion.  Where
//! a fixture lists an address or a storage key twice, the later entry counts.

use crate::fixture::{FixtureAccount, FixtureEntry, FixtureSlot};
use crate::state::{account_at, Account, AccountView, State, Storage};
use crate::word::{word_limit, Address};
use vstd::prelude::*;

verus! {

/// The numeric fields of an account.
#[derive(Clone, Copy, Debug, PartialEq, Eq, Structural)]
pub enum AccountField {
    Balance,
    Nonce,
    StorageKey,
    StorageValue,
}

/// A number of the fixture that the machine cannot hold: which one it is.
#[derive(Clone, Copy, Debug, PartialEq, Eq)]
pub enum StateConversionError {
    /// A field of the account at `address` in the state before.
    PreState { address: Address, field: AccountField },
    /// A field of the account at `address` in the expected state after.
    PostState { address: Address, field: AccountField },
    /// The balances of the state before sum to more than a word holds.
    BalanceTotal,
    /// A nonce of the state before is so close to the end of the words that
    /// the gas of the transaction could pay for raising it beyond.
    NonceRoom,
    GasPrice,
    BlockNumber,
    BlockTimestamp,
    BlockDifficulty,
    BlockGasLimit,
    /// The value that the transaction transfers.
    Value,
    /// The gas limit of the transaction.
    Gas,
    /// The gas limit of the transaction is more than the engine can count.
    GasCeiling,
    /// The expected gas left.
    GasLeft,
}

/// Whether a number fits a 256-bit word.
pub open spec fn fits_word(n: nat) -> bool {
    n < word_limit()
}

/// The first field among `slots`, keys before values, that does not fit a word.
pub open spec fn slots_fault(slots: Seq<FixtureSlot>) -> Option<AccountField>
    decreases slots.len(),
{
    if slots.len() == 0 {
        None
    } else if slots_fault(slots.drop_last()) is Some {
        slots_fault(slots.drop_last())
    } else if !fits_word(slots.last().key@) {
        Some(AccountField::StorageKey)
    } else if !fits_word(slots.last().value@) {
        Some(AccountField::StorageValue)
    } else {
        None
    }
}

/// The storage map that the slots of a fixture account stand for.
pub open spec fn fixture_slots_view(slots: Seq<FixtureSlot>) -> Map<nat, nat>
    decreases slots.len(),
{
    if slots.len() == 0 {
        Map::empty()
    } else {
        fixture_slots_view(slots.drop_last()).insert(slots.last().key@, slots.last().value@)
    }
}

/// The first field of `account` that does not fit a word: balance, nonce,
/// then the storage in its order.
pub open spec fn account_fault(account: FixtureAccount) -> Option<AccountField> {
    if !fits_word(account.balance@) {
        Some(AccountField::Balance)
    } else if !fits_word(account.nonce@) {
        Some(AccountField::Nonce)
    } else {
        slots_fault(account.storage@)
    }
}

/// The account that a fixture account stands for.
pub open spec fn fixture_account_view(account: FixtureAccount) -> AccountView {
    AccountView {
        nonce: account.nonce@,
        balance: account.balance@,
        storage: fixture_slots_view(account.storage@),
        code: account.code@,
    }
}

/// The first field among `entries` that does not fit a word, with the
/// address of its account.
pub open spec fn entries_fault(entries: Seq<FixtureEntry>) -> Option<(Address, AccountField)>
    decreases entries.len(),
{
    if entries.len() == 0 {
        None
    } else if entries_fault(entries.drop_last()) is Some {
        entries_fault(entries.drop_last())
    } else {
        match account_fault(entries.last().account) {
            Some(field) => Some((entries.last().address, field)),
            None => None,
        }
    }
}

/// The state that the entries of a fixture stand for.
pub open spec fn fixture_state_view(entries: Seq<FixtureEntry>) -> Map<nat, AccountView>
    decreases entries.len(),
{
    if entries.len() == 0 {
        Map::empty()
    } else {
        fixture_state_view(entries.drop_last()).insert(
            entries.last().address@,
            fixture_account_view(entries.last().account),
        )
    }
}

/// The sum of the balances of the state that the entries stand for: of an
/// address listed twice only the later balance counts.
pub open spec fn fixture_total_balance(entries: Seq<FixtureEntry>) -> nat
    decreases entries.len(),
{
    if entries.len() == 0 {
        0
    } else {
        let before = entries.drop_last();
        (fixture_total_balance(before) + entries.last().account.balance@ - account_at(
            fixture_state_view(before),
            entries.last().address@,
        ).balance) as nat
    }
}

/// The addresses of the entries of a fixture, each once, in the order in
/// which they first occur.
pub open spec fn fixture_order(entries: Seq<FixtureEntry>) -> Seq<nat>
    decreases entries.len(),
{
    if entries.len() == 0 {
        Seq::empty()
    } else if fixture_state_view(entries.drop_last()).contains_key(entries.last().address@) {
        fixture_order(entries.drop_last())
    } else {
        fixture_order(entries.drop_last()).push(entries.last().address@)
    }
}

/// The order of a fixture state names every one of its addresses.
pub proof fn lemma_fixture_state_key(entries: Seq<FixtureEntry>, address: nat)
    requires
        fixture_state_view(entries).contains_key(address),
    ensures
        exists|index: int|
            0 <= index < fixture_order(entries).len() && #[trigger] fixture_order(entries)[index]
                == address,
    decreases entries.len(),
{
    if entries.len() > 0 {
        let before = entries.drop_last();
        if fixture_state_view(before).contains_key(address) {
            lemma_fixture_state_key(before, address);
            let index = choose|index: int|
                0 <= index < fixture_order(before).len() && #[trigger] fixture_order(
                    before,
                )[index] == address;
            assert(fixture_order(entries)[index] == address);
        } else {
            assert(fixture_order(entries)[fixture_order(entries).len() - 1] == address);
        }
    }
}

/// A fault among the first `n` slots is the fault of the whole list.
pub proof fn lemma_slots_fault_prefix(slots: Seq<FixtureSlot>, n: int)
    requires
        0 <= n <= slots.len(),
        slots_fault(slots.take(n)) is Some,
    ensures
        slots_fault(slots) == slots_fault(slots.take(n)),
    decreases slots.len() - n,
{
    if n < slots.len() {
        assert(slots.take(n + 1).drop_last() =~= slots.take(n));
        lemma_slots_fault_prefix(slots, n + 1);
    } else {
        assert(slots.take(n) =~= slots);
    }
}

/// A fault among the first `n` entries is the fault of the whole list.
pub proof fn lemma_entries_fault_prefix(entries: Seq<FixtureEntry>, n: int)
    requires
        0 <= n <= entries.len(),
        entries_fault(entries.take(n)) is Some,
    ensures
        entries_fault(entries) == entries_fault(entries.take(n)),
    decreases entries.len() - n,
{
    if n < entries.len() {
        assert(entries.take(n + 1).drop_last() =~= entries.take(n));
        lemma_entries_fault_prefix(entries, n + 1);
    } else {
        assert(entries.take(n) =~= entries);
    }
}

/// Converts the storage of a fixture account, slot by slot.
pub fn convert_storage(slots: &Vec<FixtureSlot>) -> (converted: Result<Storage, AccountField>)
    ensures
        match converted {
            Ok(storage) => {
                &&& slots_fault(slots@) is None
                &&& storage.wf()
                &&& storage@ == fixture_slots_view(slots@)
            },
            Err(field) => slots_fault(slots@) == Some(field),
        },
{
    let mut storage = Storage::new();
    let mut i: usize = 0;
    assert(slots@.take(0) =~= Seq::<FixtureSlot>::empty());
    while i < slots.len()
        invariant
            i <= slots.len(),
            slots_fault(slots@.take(i as int)) is None,
            storage.wf(),
            storage@ == fixture_slots_view(slots@.take(i as int)),
        decreases slots.len() - i,
    {
        assert(slots@.take(i + 1).drop_last() =~= slots@.take(i as int));
        let key = match slots[i].key.to_word() {
            Some(key) => key,
            None => {
                proof {
                    lemma_slots_fault_prefix(slots@, i + 1);
                }
                return Err(AccountField::StorageKey);
            },
        };
        let value = match slots[i].value.to_word() {
            Some(value) => value,
            None => {
                proof {
                    lemma_slots_fault_prefix(slots@, i + 1);
                }
                return Err(AccountField::StorageValue);
            },
        };
        storage.insert(key, value);
        i += 1;
    }
    assert(slots@.take(i as int) =~= slots@);
    Ok(storage)
}

/// Converts one fixture account.
pub fn convert_account(account: &FixtureAccount) -> (converted: Result<Account, AccountField>)
    ensures
        match converted {
            Ok(built) => {
                &&& account_fault(*account) is None
                &&& built.wf()
                &&& built@ == fixture_account_view(*account)
            },
            Err(field) => account_fault(*account) == Some(field),
        },
{
    let balance = match account.balance.to_word() {
        Some(balance) => balance,
        None => {
            return Err(AccountField::Balance);
        },
    };
    let nonce = match account.nonce.to_word() {
        Some(nonce) => nonce,
        None => {
            return Err(AccountField::Nonce);
        },
    };
    let storage = match convert_storage(&account.storage) {
        Ok(storage) => storage,
        Err(field) => {
            return Err(field);
        },
    };
    let code = account.code.clone();
    assert(code@ =~= account.code@);
    Ok(Account { nonce, balance, storage, code })
}

/// Converts the accounts of a fixture into a state of the machine, entry by
/// entry and in their order.
pub fn convert_state(entries: &Vec<FixtureEntry>) -> (converted: Result<
    State,
    (Address, AccountField),
>)
    ensures
        match converted {
            Ok(state) => {
                &&& entries_fault(entries@) is None
                &&& state.wf()
                &&& state@ == fixture_state_view(entries@)
                &&& state.order() == fixture_order(entries@)
                &&& state.total_balance() == fixture_total_balance(entries@)
            },
            Err(fault) => entries_fault(entries@) == Some(fault),
        },
{
    let mut state = State::new();
    let mut i: usize = 0;
    assert(entries@.take(0) =~= Seq::<FixtureEntry>::empty());
    while i < entries.len()
        invariant
            i <= entries.len(),
            entries_fault(entries@.take(i as int)) is None,
            state.wf(),
            state@ == fixture_state_view(entries@.take(i as int)),
            state.order() == fixture_order(entries@.take(i as int)),
            state.total_balance() == fixture_total_balance(entries@.take(i as int)),
        decreases entries.len() - i,
    {
        assert(entries@.take(i + 1).drop_last() =~= entries@.take(i as int));
        let account = match convert_account(&entries[i].account) {
            Ok(account) => account,
            Err(field) => {
                proof {
                    lemma_entries_fault_prefix(entries@, i + 1);
                }
                return Err((entries[i].address, field));
            },
        };
        state.insert(entries[i].address, account);
        i += 1;
    }
    assert(entries@.take(i as int) =~= entries@);
    Ok(state)
}

} // verus!
