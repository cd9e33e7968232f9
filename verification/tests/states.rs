use jsontests::builder::{convert_account, convert_state, convert_storage, AccountField};
use jsontests::fixture::{FixtureAccount, FixtureEntry, FixtureSlot};
use jsontests::state::{Account, Slot, State, Storage};
use jsontests::word::{Address, Uint, Word};

fn uint(n: u64) -> Uint {
    Uint { digits: n.to_be_bytes().to_vec() }
}

fn too_big() -> Uint {
    let mut digits = vec![1u8];
    digits.extend_from_slice(&[0u8; 32]);
    Uint { digits }
}

fn word(n: u64) -> Word {
    let mut bytes = [0u8; 32];
    bytes[24..].copy_from_slice(&n.to_be_bytes());
    Word { bytes }
}

fn address(n: u8) -> Address {
    let mut bytes = [0u8; 20];
    bytes[19] = n;
    Address { bytes }
}

fn slot(key: Uint, value: Uint) -> FixtureSlot {
    FixtureSlot { key, value }
}

fn account(balance: Uint, nonce: Uint, storage: Vec<FixtureSlot>) -> FixtureAccount {
    FixtureAccount { balance, nonce, code: vec![0x60, 0x00], storage }
}

#[test]
fn new_storage_holds_nothing() {
    let storage = Storage::new();
    assert_eq!(storage.get(&word(0)), None);
    assert_eq!(storage.value_at(&word(0)), Word::zero());
}

#[test]
fn storage_gives_back_what_was_put() {
    let mut storage = Storage::new();
    storage.insert(word(1), word(10));
    storage.insert(word(2), word(20));
    assert_eq!(storage.get(&word(1)), Some(word(10)));
    assert_eq!(storage.get(&word(2)), Some(word(20)));
    assert_eq!(storage.get(&word(3)), None);
    assert_eq!(storage.value_at(&word(2)), word(20));
    assert_eq!(storage.value_at(&word(3)), Word::zero());
}

#[test]
fn later_value_replaces_earlier() {
    let mut storage = Storage::new();
    storage.insert(word(1), word(10));
    storage.insert(word(2), word(20));
    storage.insert(word(1), word(11));
    assert_eq!(storage.get(&word(1)), Some(word(11)));
    assert_eq!(storage.get(&word(2)), Some(word(20)));
    assert_eq!(storage.len(), 2);
    assert_eq!(
        storage.slots,
        vec![Slot { key: word(1), value: word(11) }, Slot { key: word(2), value: word(20) }]
    );
}

#[test]
fn storage_clone_keeps_the_slots() {
    let mut storage = Storage::new();
    storage.insert(word(1), word(10));
    let copy = storage.clone();
    assert_eq!(copy.slots, vec![Slot { key: word(1), value: word(10) }]);
}

#[test]
fn empty_account_has_nothing() {
    let empty = Account::empty();
    assert!(empty.nonce.is_zero());
    assert!(empty.balance.is_zero());
    assert!(empty.code.is_empty());
    assert!(empty.storage.slots.is_empty());
}

#[test]
fn account_clone_keeps_the_fields() {
    let mut storage = Storage::new();
    storage.insert(word(1), word(10));
    let account = Account { nonce: word(1), balance: word(2), storage, code: vec![3] };
    assert_eq!(account.clone(), account);
}

#[test]
fn state_gives_back_what_was_put() {
    let mut state = State::new();
    assert_eq!(state.get(&address(1)), None);
    state.insert(address(1), Account { balance: word(5), ..Account::empty() });
    state.insert(address(2), Account { balance: word(6), ..Account::empty() });
    assert_eq!(state.get(&address(1)).unwrap().balance, word(5));
    assert_eq!(state.get(&address(2)).unwrap().balance, word(6));
    assert_eq!(state.get(&address(3)), None);
}

#[test]
fn later_account_replaces_earlier() {
    let mut state = State::new();
    assert_eq!(state.len(), 0);
    state.insert(address(1), Account { balance: word(5), ..Account::empty() });
    state.insert(address(2), Account { balance: word(6), ..Account::empty() });
    state.insert(address(1), Account { balance: word(7), ..Account::empty() });
    assert_eq!(state.get(&address(1)).unwrap().balance, word(7));
    assert_eq!(state.len(), 2);
    assert_eq!(state.entries[0].address, address(1));
    assert_eq!(state.entries[1].address, address(2));
}

#[test]
fn missing_address_shows_the_empty_account() {
    let mut state = State::new();
    state.insert(address(1), Account { balance: word(5), ..Account::empty() });
    assert_eq!(state.account_at(&address(2)), Account::empty());
    assert_eq!(state.account_at(&address(1)).balance, word(5));
}

#[test]
fn storage_converts_slot_by_slot() {
    let converted = convert_storage(&vec![slot(uint(1), uint(10)), slot(uint(2), uint(0))]).unwrap();
    assert_eq!(converted.get(&word(1)), Some(word(10)));
    assert_eq!(converted.get(&word(2)), Some(word(0)));
    assert_eq!(converted.slots.len(), 2);
}

#[test]
fn storage_keys_equal_in_value_are_one_key() {
    let short = Uint { digits: vec![1] };
    let long = Uint { digits: vec![0, 0, 1] };
    let converted = convert_storage(&vec![slot(short, uint(10)), slot(long, uint(11))]).unwrap();
    assert_eq!(converted.get(&word(1)), Some(word(11)));
    assert_eq!(converted.len(), 1);
}

#[test]
fn address_listed_twice_is_one_account() {
    let entries = vec![
        FixtureEntry { address: address(1), account: account(uint(100), uint(0), vec![]) },
        FixtureEntry { address: address(2), account: account(uint(200), uint(0), vec![]) },
        FixtureEntry { address: address(1), account: account(uint(300), uint(0), vec![]) },
    ];
    let state = convert_state(&entries).unwrap();
    assert_eq!(state.len(), 2);
    assert_eq!(state.entries[0].address, address(1));
    assert_eq!(state.get(&address(1)).unwrap().balance, word(300));
}

#[test]
fn storage_key_beyond_a_word_is_refused() {
    assert_eq!(
        convert_storage(&vec![slot(uint(1), uint(1)), slot(too_big(), uint(1))]),
        Err(AccountField::StorageKey)
    );
}

#[test]
fn storage_value_beyond_a_word_is_refused() {
    assert_eq!(convert_storage(&vec![slot(uint(1), too_big())]), Err(AccountField::StorageValue));
}

#[test]
fn first_fault_of_the_storage_is_reported() {
    assert_eq!(
        convert_storage(&vec![slot(uint(1), too_big()), slot(too_big(), uint(1))]),
        Err(AccountField::StorageValue)
    );
    assert_eq!(
        convert_storage(&vec![slot(too_big(), too_big())]),
        Err(AccountField::StorageKey)
    );
}

#[test]
fn account_converts_field_by_field() {
    let converted = convert_account(&account(uint(100), uint(3), vec![slot(uint(1), uint(2))])).unwrap();
    assert_eq!(converted.balance, word(100));
    assert_eq!(converted.nonce, word(3));
    assert_eq!(converted.code, vec![0x60, 0x00]);
    assert_eq!(converted.storage.get(&word(1)), Some(word(2)));
}

#[test]
fn balance_beyond_a_word_is_refused() {
    assert_eq!(convert_account(&account(too_big(), uint(0), vec![])), Err(AccountField::Balance));
}

#[test]
fn nonce_beyond_a_word_is_refused() {
    assert_eq!(convert_account(&account(uint(0), too_big(), vec![])), Err(AccountField::Nonce));
}

#[test]
fn balance_is_looked_at_before_nonce_and_storage() {
    assert_eq!(
        convert_account(&account(too_big(), too_big(), vec![slot(too_big(), uint(0))])),
        Err(AccountField::Balance)
    );
    assert_eq!(
        convert_account(&account(uint(0), too_big(), vec![slot(too_big(), uint(0))])),
        Err(AccountField::Nonce)
    );
    assert_eq!(
        convert_account(&account(uint(0), uint(0), vec![slot(too_big(), uint(0))])),
        Err(AccountField::StorageKey)
    );
}

#[test]
fn state_converts_entry_by_entry() {
    let entries = vec![
        FixtureEntry { address: address(1), account: account(uint(100), uint(0), vec![]) },
        FixtureEntry { address: address(2), account: account(uint(200), uint(1), vec![]) },
    ];
    let state = convert_state(&entries).unwrap();
    assert_eq!(state.entries.len(), 2);
    assert_eq!(state.entries[0].address, address(1));
    assert_eq!(state.entries[1].address, address(2));
    assert_eq!(state.get(&address(1)).unwrap().balance, word(100));
    assert_eq!(state.get(&address(2)).unwrap().nonce, word(1));
}

#[test]
fn empty_list_is_the_empty_state() {
    assert_eq!(convert_state(&Vec::new()), Ok(State::new()));
}

#[test]
fn one_bad_account_fails_the_whole_state() {
    let entries = vec![
        FixtureEntry { address: address(1), account: account(uint(100), uint(0), vec![]) },
        FixtureEntry { address: address(2), account: account(uint(1), too_big(), vec![]) },
        FixtureEntry { address: address(3), account: account(too_big(), uint(0), vec![]) },
    ];
    assert_eq!(convert_state(&entries), Err((address(2), AccountField::Nonce)));
}

#[test]
fn balances_are_summed() {
    let mut state = State::new();
    assert_eq!(state.balance_total(), Some(Word::zero()));
    state.insert(address(1), Account { balance: word(5), ..Account::empty() });
    state.insert(address(2), Account { balance: word(6), ..Account::empty() });
    assert_eq!(state.balance_total(), Some(word(11)));
    state.insert(address(1), Account { balance: word(1), ..Account::empty() });
    assert_eq!(state.balance_total(), Some(word(7)));
}

#[test]
fn sum_of_balances_beyond_a_word_is_none() {
    let mut state = State::new();
    state.insert(address(1), Account { balance: Word { bytes: [0xff; 32] }, ..Account::empty() });
    assert_eq!(state.balance_total(), Some(Word { bytes: [0xff; 32] }));
    state.insert(address(2), Account { balance: word(1), ..Account::empty() });
    assert_eq!(state.balance_total(), None);
    state.insert(address(2), Account { balance: word(0), ..Account::empty() });
    assert_eq!(state.balance_total(), Some(Word { bytes: [0xff; 32] }));
}

#[test]
fn nonces_need_room_for_the_gas() {
    let mut state = State::new();
    assert!(state.nonces_leave_room(usize::MAX));
    let mut near = [0xff; 32];
    near[31] = 0xf0;
    state.insert(address(1), Account { nonce: word(3), ..Account::empty() });
    state.insert(address(2), Account { nonce: Word { bytes: near }, ..Account::empty() });
    assert!(state.nonces_leave_room(0));
    assert!(state.nonces_leave_room(14));
    assert!(state.nonces_leave_room(15));
    assert!(!state.nonces_leave_room(16));
    assert!(!state.nonces_leave_room(usize::MAX));
    state.insert(address(2), Account { nonce: word(0), ..Account::empty() });
    assert!(state.nonces_leave_room(usize::MAX));
}
