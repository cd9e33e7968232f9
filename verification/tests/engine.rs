use jsontests::engine::{
    execute, CallContext, ExitKind, Vicinity, DELETE_EMPTY, GAS_CEILING, MEMORY_LIMIT,
    STACK_LIMIT,
};
use jsontests::state::{Account, State, Storage};
use jsontests::word::{Address, Word};
use std::rc::Rc;

fn word(n: u64) -> Word {
    let mut bytes = [0u8; 32];
    bytes[24..].copy_from_slice(&n.to_be_bytes());
    Word { bytes }
}

fn address(n: u8) -> Address {
    let mut bytes = [0u8; 20];
    bytes[0] = 0xa0;
    bytes[19] = n;
    Address { bytes }
}

fn address_word(a: &Address) -> Vec<u8> {
    let mut bytes = vec![0u8; 12];
    bytes.extend_from_slice(&a.bytes);
    bytes
}

fn vicinity() -> Vicinity {
    Vicinity {
        gas_price: word(11),
        origin: address(1),
        chain_id: word(0),
        block_hashes: Vec::new(),
        block_number: word(12),
        block_coinbase: address(2),
        block_timestamp: word(13),
        block_difficulty: word(14),
        block_gas_limit: word(15),
    }
}

fn context() -> CallContext {
    CallContext { address: address(3), caller: address(4), apparent_value: word(16) }
}

/// Code that puts the result of each opcode into memory, one word after the
/// other, and returns all of it.
fn returning(opcodes: &[u8]) -> Vec<u8> {
    let mut code = Vec::new();
    for (i, op) in opcodes.iter().enumerate() {
        code.extend_from_slice(&[*op, 0x60, 32 * i as u8, 0x52]);
    }
    code.extend_from_slice(&[0x60, 32 * opcodes.len() as u8, 0x60, 0x00, 0xf3]);
    code
}

fn run(state: &State, code: Vec<u8>, data: Vec<u8>, gas: usize) -> jsontests::engine::Execution {
    execute(state, &vicinity(), &context(), Rc::new(code), Rc::new(data), gas)
}

#[test]
fn limits_are_those_of_the_harness() {
    assert_eq!(STACK_LIMIT, 1024);
    assert_eq!(MEMORY_LIMIT, 1000000);
    assert!(!DELETE_EMPTY);
    assert_eq!(GAS_CEILING, usize::MAX / 4096);
}

#[test]
fn returns_the_stored_word() {
    let code = vec![0x60, 0x2a, 0x60, 0x00, 0x52, 0x60, 0x20, 0x60, 0x00, 0xf3];
    let ran = run(&State::new(), code, Vec::new(), 100000);
    assert_eq!(ran.reason.kind, ExitKind::Succeed);
    assert_eq!(ran.reason.label, "Succeed(Returned)");
    assert!(!ran.reason.is_error());
    assert_eq!(ran.return_value, word(42).bytes.to_vec());
    assert_eq!(ran.gas, 100000 - 18);
}

#[test]
fn empty_code_stops_at_once() {
    let ran = run(&State::new(), Vec::new(), Vec::new(), 7);
    assert_eq!(ran.reason.kind, ExitKind::Succeed);
    assert_eq!(ran.reason.label, "Succeed(Stopped)");
    assert_eq!(ran.return_value, Vec::<u8>::new());
    assert_eq!(ran.gas, 7);
}

#[test]
fn code_sees_the_vicinity() {
    // GASPRICE ORIGIN NUMBER COINBASE TIMESTAMP DIFFICULTY GASLIMIT
    let ran = run(
        &State::new(),
        returning(&[0x3a, 0x32, 0x43, 0x41, 0x42, 0x44, 0x45]),
        Vec::new(),
        100000,
    );
    assert_eq!(ran.reason.kind, ExitKind::Succeed);
    let mut expected = Vec::new();
    expected.extend_from_slice(&word(11).bytes);
    expected.extend_from_slice(&address_word(&address(1)));
    expected.extend_from_slice(&word(12).bytes);
    expected.extend_from_slice(&address_word(&address(2)));
    expected.extend_from_slice(&word(13).bytes);
    expected.extend_from_slice(&word(14).bytes);
    expected.extend_from_slice(&word(15).bytes);
    assert_eq!(ran.return_value, expected);
}

#[test]
fn code_sees_the_context() {
    // ADDRESS CALLER CALLVALUE
    let ran = run(&State::new(), returning(&[0x30, 0x33, 0x34]), Vec::new(), 100000);
    assert_eq!(ran.reason.kind, ExitKind::Succeed);
    let mut expected = Vec::new();
    expected.extend_from_slice(&address_word(&address(3)));
    expected.extend_from_slice(&address_word(&address(4)));
    expected.extend_from_slice(&word(16).bytes);
    assert_eq!(ran.return_value, expected);
}

#[test]
fn code_sees_the_input_data() {
    // PUSH1 0 CALLDATALOAD PUSH1 0 MSTORE PUSH1 32 PUSH1 0 RETURN
    let code = vec![0x60, 0x00, 0x35, 0x60, 0x00, 0x52, 0x60, 0x20, 0x60, 0x00, 0xf3];
    let ran = run(&State::new(), code, word(77).bytes.to_vec(), 100000);
    assert_eq!(ran.return_value, word(77).bytes.to_vec());
}

#[test]
fn code_sees_the_state_before() {
    let mut storage = Storage::new();
    storage.insert(word(5), word(500));
    let mut state = State::new();
    state.insert(
        address(3),
        Account { nonce: word(1), balance: word(1000), storage, code: vec![1, 2, 3] },
    );
    // PUSH1 5 SLOAD PUSH1 0 MSTORE ADDRESS BALANCE PUSH1 32 MSTORE PUSH1 64 PUSH1 0 RETURN
    let code = vec![
        0x60, 0x05, 0x54, 0x60, 0x00, 0x52, 0x30, 0x31, 0x60, 0x20, 0x52, 0x60, 0x40, 0x60, 0x00,
        0xf3,
    ];
    let ran = run(&state, code, Vec::new(), 100000);
    assert_eq!(ran.reason.kind, ExitKind::Succeed);
    let mut expected = word(500).bytes.to_vec();
    expected.extend_from_slice(&word(1000).bytes);
    assert_eq!(ran.return_value, expected);
}

#[test]
fn later_entry_replaces_earlier_in_the_engine_too() {
    let mut state = State::new();
    state.insert(address(3), Account { balance: word(1), ..Account::empty() });
    state.insert(address(3), Account { balance: word(2), ..Account::empty() });
    // ADDRESS BALANCE
    let code = vec![0x30, 0x31, 0x60, 0x00, 0x52, 0x60, 0x20, 0x60, 0x00, 0xf3];
    let ran = run(&state, code, Vec::new(), 100000);
    assert_eq!(ran.return_value, word(2).bytes.to_vec());
    assert_eq!(ran.post_state.entries.len(), 1);
    assert_eq!(ran.post_state.account_at(&address(3)).balance, word(2));
}

#[test]
fn state_after_holds_what_was_stored() {
    let mut state = State::new();
    state.insert(
        address(9),
        Account { nonce: word(3), balance: word(100), storage: Storage::new(), code: vec![7] },
    );
    // PUSH1 0x2a PUSH1 1 SSTORE
    let ran = run(&state, vec![0x60, 0x2a, 0x60, 0x01, 0x55], Vec::new(), 100000);
    assert_eq!(ran.reason.kind, ExitKind::Succeed);
    assert_eq!(ran.gas, 100000 - 6 - 20000);
    let touched = ran.post_state.account_at(&address(3));
    assert_eq!(touched.storage.get(&word(1)), Some(word(42)));
    assert_eq!(touched.storage.get(&word(2)), None);
    let kept = ran.post_state.account_at(&address(9));
    assert_eq!(kept.nonce, word(3));
    assert_eq!(kept.balance, word(100));
    assert_eq!(kept.code, vec![7]);
    assert_eq!(ran.post_state.get(&address(8)), None);
}

#[test]
fn out_of_gas_is_an_error() {
    let code = vec![0x60, 0x2a, 0x60, 0x00, 0x52, 0x60, 0x20, 0x60, 0x00, 0xf3];
    let ran = run(&State::new(), code, Vec::new(), 17);
    assert_eq!(ran.reason.kind, ExitKind::Error);
    assert_eq!(ran.reason.label, "Error(OutOfGas)");
    assert!(ran.reason.is_error());
    assert_eq!(ran.gas, 0);
}

#[test]
fn stack_underflow_is_an_error() {
    // ADD on an empty stack
    let ran = run(&State::new(), vec![0x01], Vec::new(), 1000);
    assert_eq!(ran.reason.kind, ExitKind::Error);
    assert_eq!(ran.reason.label, "Error(StackUnderflow)");
}

#[test]
fn stack_deeper_than_the_limit_is_an_error() {
    // JUMPDEST PUSH1 0 PUSH1 0 JUMP: one word more on the stack each round
    let ran = run(&State::new(), vec![0x5b, 0x60, 0x00, 0x60, 0x00, 0x56], Vec::new(), 1000000);
    assert_eq!(ran.reason.kind, ExitKind::Error);
    assert_eq!(ran.reason.label, "Error(StackOverflow)");
}

#[test]
fn memory_beyond_the_limit_is_fatal() {
    // PUSH1 1 PUSH3 1000000 MSTORE
    let code = vec![0x60, 0x01, 0x62, 0x0f, 0x42, 0x40, 0x52];
    let ran = run(&State::new(), code, Vec::new(), 100000000);
    assert_eq!(ran.reason.kind, ExitKind::Fatal);
    assert_eq!(ran.reason.label, "Fatal(NotSupported)");
    assert!(ran.reason.is_error());
}

#[test]
fn memory_up_to_the_limit_is_fine() {
    // PUSH1 1 PUSH3 999968 MSTORE
    let code = vec![0x60, 0x01, 0x62, 0x0f, 0x42, 0x20, 0x52];
    let ran = run(&State::new(), code, Vec::new(), 100000000);
    assert_eq!(ran.reason.kind, ExitKind::Succeed);
}

#[test]
fn gas_left_never_exceeds_the_limit() {
    let codes: Vec<Vec<u8>> = vec![
        Vec::new(),
        vec![0x60, 0x2a, 0x60, 0x00, 0x52, 0x60, 0x20, 0x60, 0x00, 0xf3],
        vec![0x60, 0x2a, 0x60, 0x01, 0x55],
        vec![0x01],
    ];
    for code in codes {
        for gas in [0usize, 5, 18, 20006, 1000000] {
            let ran = run(&State::new(), code.clone(), Vec::new(), gas);
            assert!(ran.gas <= gas);
        }
    }
}

#[test]
fn same_inputs_same_execution() {
    let code = vec![0x60, 0x2a, 0x60, 0x01, 0x55, 0x60, 0x20, 0x60, 0x00, 0xf3];
    let first = run(&State::new(), code.clone(), Vec::new(), 50000);
    let second = run(&State::new(), code, Vec::new(), 50000);
    assert_eq!(first, second);
}

#[test]
fn failed_creation_with_all_the_gas_leaves_none() {
    // MSTORE8 of an invalid opcode, CREATE from that byte, PUSH1: the
    // creation fails with all the gas, and the push finds none left.
    let code = vec![0x60, 0xfe, 0x60, 0x00, 0x53, 0x60, 0x01, 0x60, 0x00, 0x60, 0x00, 0xf0, 0x60, 0x00];
    for gas in [40000usize, 1 << 40, GAS_CEILING - 1, GAS_CEILING] {
        let ran = run(&State::new(), code.clone(), Vec::new(), gas);
        assert_eq!(ran.reason.label, "Error(OutOfGas)");
        assert_eq!(ran.gas, 0);
    }
}

#[test]
fn gas_at_the_ceiling_is_counted() {
    let code = vec![0x60, 0x2a, 0x60, 0x00, 0x52, 0x60, 0x20, 0x60, 0x00, 0xf3];
    let ran = run(&State::new(), code, Vec::new(), GAS_CEILING);
    assert_eq!(ran.reason.label, "Succeed(Returned)");
    assert_eq!(ran.gas, GAS_CEILING - 18);
}
