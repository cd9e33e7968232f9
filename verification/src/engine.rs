//! The execution engine and the boundary to it.
//!
//! The interpreter, its gas metering and its in-memory backend belong to the
//! `evm` crate.  This module hands it a state, a block environment and one
//! message, and takes back what it reports.  Everything marked
//! `external_body` here, and every function without a body, is believed and
//! not proved; [`execute`] is proved from those statements.

use crate::state::{nonces_have_room, Account, AccountView, Entry, Slot, State, Storage};
use crate::word::{word_limit, Address, Word};
use evm::backend::{ApplyBackend, MemoryAccount, MemoryBackend, MemoryVicinity};
use evm::executor::StackExecutor;
use primitive_types::{H160, H256, U256};
use std::collections::BTreeMap;
use std::rc::Rc;
use vstd::prelude::*;

verus! {

/// The block and transaction environment that running code can observe.
#[derive(Clone, Debug, PartialEq, Eq)]
pub struct Vicinity {
    pub gas_price: Word,
    pub origin: Address,
    pub chain_id: Word,
    pub block_hashes: Vec<Word>,
    pub block_number: Word,
    pub block_coinbase: Address,
    pub block_timestamp: Word,
    pub block_difficulty: Word,
    pub block_gas_limit: Word,
}

/// The mathematical content of a [`Vicinity`].
pub struct VicinityView {
    pub gas_price: nat,
    pub origin: nat,
    pub chain_id: nat,
    pub block_hashes: Seq<nat>,
    pub block_number: nat,
    pub block_coinbase: nat,
    pub block_timestamp: nat,
    pub block_difficulty: nat,
    pub block_gas_limit: nat,
}

impl View for Vicinity {
    type V = VicinityView;

    open spec fn view(&self) -> VicinityView {
        VicinityView {
            gas_price: self.gas_price@,
            origin: self.origin@,
            chain_id: self.chain_id@,
            block_hashes: Seq::new(self.block_hashes@.len(), |i: int| self.block_hashes@[i]@),
            block_number: self.block_number@,
            block_coinbase: self.block_coinbase@,
            block_timestamp: self.block_timestamp@,
            block_difficulty: self.block_difficulty@,
            block_gas_limit: self.block_gas_limit@,
        }
    }
}

/// Who runs, who called, and with what value: what the running code sees
/// as its own address, its caller and the value sent along.
#[derive(Clone, Copy, Debug, PartialEq, Eq)]
pub struct CallContext {
    pub address: Address,
    pub caller: Address,
    pub apparent_value: Word,
}

/// The mathematical content of a [`CallContext`].
pub struct ContextView {
    pub address: nat,
    pub caller: nat,
    pub apparent_value: nat,
}

impl View for CallContext {
    type V = ContextView;

    open spec fn view(&self) -> ContextView {
        ContextView {
            address: self.address@,
            caller: self.caller@,
            apparent_value: self.apparent_value@,
        }
    }
}

/// The four ways in which an execution ends.
#[derive(Clone, Copy, Debug, PartialEq, Eq, Structural)]
pub enum ExitKind {
    /// Ran to a normal end.
    Succeed,
    /// Stopped on an error of the executed code.
    Error,
    /// Reverted on request of the executed code, with output.
    Revert,
    /// Stopped on a condition that the engine cannot handle.
    Fatal,
}

/// Why an execution ended: its kind, and the engine's own name for the
/// cause, which is kept only to be shown.
#[derive(Debug, PartialEq, Eq)]
pub struct Exit {
    pub kind: ExitKind,
    pub label: String,
}

/// The mathematical content of an [`Exit`].
pub struct ExitView {
    pub kind: ExitKind,
    pub label: Seq<char>,
}

impl View for Exit {
    type V = ExitView;

    open spec fn view(&self) -> ExitView {
        ExitView { kind: self.kind, label: self.label@ }
    }
}

impl Clone for Exit {
    fn clone(&self) -> (copy: Exit)
        ensures
            copy@ == self@,
    {
        Exit { kind: self.kind, label: self.label.clone() }
    }
}

impl Exit {
    /// Whether the execution failed: it ended neither normally nor by a
    /// requested revert.
    pub fn is_error(&self) -> (error: bool)
        ensures
            error == exit_is_error(self@.kind),
    {
        match self.kind {
            ExitKind::Succeed => false,
            ExitKind::Revert => false,
            ExitKind::Error => true,
            ExitKind::Fatal => true,
        }
    }
}

/// An exit counts as an error unless it is a normal end or a revert.
pub open spec fn exit_is_error(kind: ExitKind) -> bool {
    kind != ExitKind::Succeed && kind != ExitKind::Revert
}

/// Deepest stack that the machine may build.
pub const STACK_LIMIT: usize = 1024;

/// Most memory, in bytes, that the machine may address.
pub const MEMORY_LIMIT: usize = 1000000;

/// Whether accounts left empty by the execution are removed from the state.
pub const DELETE_EMPTY: bool = false;

/// What one execution handed back.
#[derive(Debug, PartialEq, Eq)]
pub struct Execution {
    pub reason: Exit,
    pub return_value: Vec<u8>,
    pub gas: usize,
    pub post_state: State,
}

/// The mathematical content of an [`Execution`].
pub struct ExecutionView {
    pub exit: ExitView,
    pub return_value: Seq<u8>,
    pub gas: nat,
    pub post_state: Map<nat, AccountView>,
}

impl View for Execution {
    type V = ExecutionView;

    open spec fn view(&self) -> ExecutionView {
        ExecutionView {
            exit: self.reason@,
            return_value: self.return_value@,
            gas: self.gas as nat,
            post_state: self.post_state@,
        }
    }
}

/// Most gas that a run may be given.
///
/// The engine's meter counts in `usize` and adds without a check.  Before
/// it accepts a step it adds three numbers: the gas used so far, which is
/// at most the limit; the cost of the memory in use, `3a + a*a/512` for `a`
/// words, which the meter computes with checked steps, so that `a*a` fits
/// and the cost is below `usize::MAX / 64`; and the cost of the step
/// itself, at most 34040 plus 256 for each word of memory in use, again
/// below `usize::MAX / 64`.  The code of a new contract is charged at 200
/// a byte, on at most 32 bytes for each word of memory.  A run within a
/// run gets at most the gas that is left, and 2300 more where value is
/// sent.  With the limit at most `usize::MAX / 4096` none of these sums
/// leaves `usize`, and what the meter reports as left, the limit less what
/// was used, is at most the limit.
///
/// The meter also counts refunds, in `isize`: 15000 for a cleared slot,
/// which costs 5000 to clear, and 24000 for an account that destroys
/// itself, once in the run and once in each run within it, which costs at
/// least 40 to start.  The gas spent in all runs together is below 1.35
/// times the limit, the rest being the 2300 given on a call that costs
/// 9000.  So the refunds stay below 24000 and 815 times the limit, and
/// with this ceiling below `isize::MAX`.
pub const GAS_CEILING: usize = usize::MAX / 4096;

/// Whether the engine can run on `state` with `gas_limit`.  The engine adds
/// to balances and nonces without a check of its own and stops the whole
/// program where a sum leaves the 256 bits.  Value only moves between
/// accounts, so no balance grows beyond the sum of all; a nonce grows by one
/// for each contract that its account creates, and each creation takes gas.
/// The gas itself must be countable, see [`GAS_CEILING`].
pub open spec fn runnable(state: State, gas_limit: usize) -> bool {
    &&& state.wf()
    &&& state.total_balance() < word_limit()
    &&& nonces_have_room(state@, gas_limit as nat)
    &&& gas_limit <= GAS_CEILING
}

/// Whether the accounts that a backend holds can be listed as a state on
/// which the engine can run with `gas_limit`.
pub open spec fn backend_runnable(held: Map<nat, AccountView>, gas_limit: usize) -> bool {
    exists|state: State| #[trigger] runnable(state, gas_limit) && state@ == held
}

/// `primitive_types::H160`, the engine's address type; opaque here.
#[verifier::external_type_specification]
#[verifier::external_body]
pub struct ExH160(primitive_types::H160);

/// `evm::backend::MemoryAccount`, one account of the engine's in-memory
/// backend; opaque here.
#[verifier::external_type_specification]
#[verifier::external_body]
pub struct ExMemoryAccount(evm::backend::MemoryAccount);

/// `evm::backend::MemoryVicinity`, the environment record of the engine's
/// in-memory backend; opaque here.
#[verifier::external_type_specification]
#[verifier::external_body]
pub struct ExMemoryVicinity(evm::backend::MemoryVicinity);

/// `evm::Context`, the engine's call context; opaque here.
#[verifier::external_type_specification]
#[verifier::external_body]
pub struct ExContext(evm::Context);

/// `evm::ExitReason`, the engine's exit reason; opaque here.
#[verifier::external_type_specification]
#[verifier::external_body]
pub struct ExExitReason(evm::ExitReason);

/// The accounts that a backend state map holds, by address: of each its
/// nonce, its balance, its code and the storage slots that the map lists.
pub uninterp spec fn held_state(state: BTreeMap<H160, MemoryAccount>) -> Map<nat, AccountView>;

/// The field values that an engine vicinity holds.
pub uninterp spec fn held_vicinity(vicinity: MemoryVicinity) -> VicinityView;

/// The field values that an engine context holds.
pub uninterp spec fn held_context(context: evm::Context) -> ContextView;

/// The kind of an engine exit reason, and the text that its `Debug`
/// form prints.
pub uninterp spec fn held_exit(reason: evm::ExitReason) -> ExitView;

/// What the engine reports for one run under the frontier rules: the exit
/// reason, the returned bytes, the gas remaining and the state after its
/// changes were applied.  The engine is deterministic, so this is a function
/// of what the run is given.  Nothing else is said of it here.
pub uninterp spec fn engine_outcome(
    state: Map<nat, AccountView>,
    vicinity: VicinityView,
    context: ContextView,
    code: Seq<u8>,
    data: Seq<u8>,
    gas_limit: usize,
    stack_limit: usize,
    memory_limit: usize,
    delete_empty: bool,
) -> ExecutionView;

/// Builds an `evm::backend::MemoryVicinity` with `U256::from` on 32
/// big-endian bytes and the tuple constructors of `H160` and `H256`.
/// Claimed: the record holds, field by field, the values of `vicinity`.
#[verifier::external_body]
fn backend_vicinity(vicinity: &Vicinity) -> (built: MemoryVicinity)
    ensures
        held_vicinity(built) == vicinity@,
{
    MemoryVicinity {
        gas_price: U256::from(vicinity.gas_price.bytes),
        origin: H160(vicinity.origin.bytes),
        chain_id: U256::from(vicinity.chain_id.bytes),
        block_hashes: vicinity.block_hashes.iter().map(|hash| H256(hash.bytes)).collect(),
        block_number: U256::from(vicinity.block_number.bytes),
        block_coinbase: H160(vicinity.block_coinbase.bytes),
        block_timestamp: U256::from(vicinity.block_timestamp.bytes),
        block_difficulty: U256::from(vicinity.block_difficulty.bytes),
        block_gas_limit: U256::from(vicinity.block_gas_limit.bytes),
    }
}

/// Builds an `evm::Context` in the same way.  Claimed: the record holds
/// the three values of `context`.
#[verifier::external_body]
fn backend_context(context: &CallContext) -> (built: evm::Context)
    ensures
        held_context(built) == context@,
{
    evm::Context {
        address: H160(context.address.bytes),
        caller: H160(context.caller.bytes),
        apparent_value: U256::from(context.apparent_value.bytes),
    }
}

/// Collects the entries of `state` into the map from `H160` to
/// `evm::backend::MemoryAccount` that the backend is made from, one account
/// for each entry and one slot for each slot.  Claimed: the map holds what
/// `state` stands for.  No address and no key occurs twice, so nothing is
/// dropped on the way.
#[verifier::external_body]
fn backend_state(state: &State) -> (built: BTreeMap<H160, MemoryAccount>)
    requires
        state.wf(),
    ensures
        held_state(built) == state@,
{
    let account = |a: &Account| MemoryAccount {
        nonce: U256::from(a.nonce.bytes),
        balance: U256::from(a.balance.bytes),
        storage: a.storage.slots.iter().map(|s| (H256(s.key.bytes), H256(s.value.bytes))).collect(),
        code: a.code.clone(),
    };
    state.entries.iter().map(|e| (H160(e.address.bytes), account(&e.account))).collect()
}

/// What the four values handed back by one run of the engine hold.
pub open spec fn reported(
    ran: (evm::ExitReason, Vec<u8>, usize, BTreeMap<H160, MemoryAccount>),
) -> ExecutionView {
    ExecutionView {
        exit: held_exit(ran.0),
        return_value: ran.1@,
        gas: ran.2 as nat,
        post_state: held_state(ran.3),
    }
}

/// Runs the engine once: `Config::frontier` with the two limits set,
/// `MemoryBackend::new`, `StackExecutor::new`, `Runtime::new`,
/// `StackExecutor::execute`, `StackExecutor::gas`,
/// `StackExecutor::deconstruct`, `MemoryBackend::apply`, and
/// `Machine::return_value` for the returned bytes.  Claimed: the four
/// results are those that [`engine_outcome`] names for what the arguments
/// hold, and the gas reported as left is at most the limit: the meter gives
/// the limit less what was used, or zero once it has failed.  Left out are
/// the inputs on which the engine's unchecked additions overflow, see
/// [`runnable`] and [`GAS_CEILING`].
///
/// Assumed, and not settled by the engine's source: that the program has
/// the stack and the memory for the run.  Calls between contracts nest on
/// the stack of the program, up to the engine's own limit of 1024, and the
/// bytes that a run returns or hashes are allocated as far as its gas pays
/// for them.  The engine meters every step against the gas limit, so the
/// run ends.
#[verifier::external_body]
fn run(
    state: BTreeMap<H160, MemoryAccount>,
    vicinity: &MemoryVicinity,
    context: evm::Context,
    code: Rc<Vec<u8>>,
    data: Rc<Vec<u8>>,
    gas_limit: usize,
    stack_limit: usize,
    memory_limit: usize,
    delete_empty: bool,
) -> (ran: (evm::ExitReason, Vec<u8>, usize, BTreeMap<H160, MemoryAccount>))
    requires
        backend_runnable(held_state(state), gas_limit),
    ensures
        reported(ran) == engine_outcome(
            held_state(state),
            held_vicinity(*vicinity),
            held_context(context),
            code@,
            data@,
            gas_limit,
            stack_limit,
            memory_limit,
            delete_empty,
        ),
        ran.2 <= gas_limit,
{
    let mut config = evm::Config::frontier();
    config.stack_limit = stack_limit;
    config.memory_limit = memory_limit;
    let mut backend = MemoryBackend::new(vicinity, state);
    let mut executor = StackExecutor::new(&backend, gas_limit, &config);
    let mut runtime = evm::Runtime::new(code, data, context, &config);
    let reason = executor.execute(&mut runtime);
    let gas = executor.gas();
    let (values, logs) = executor.deconstruct();
    backend.apply(values, logs, delete_empty);
    (reason, runtime.machine().return_value(), gas, backend.state().clone())
}

/// Tells the four variants of `evm::ExitReason` apart and keeps its `Debug`
/// text.  Claimed: kind and text are those of `reason`.
#[verifier::external_body]
fn exit_of(reason: evm::ExitReason) -> (exit: Exit)
    ensures
        exit@ == held_exit(reason),
{
    let kind = match reason {
        evm::ExitReason::Succeed(_) => ExitKind::Succeed,
        evm::ExitReason::Error(_) => ExitKind::Error,
        evm::ExitReason::Revert(_) => ExitKind::Revert,
        evm::ExitReason::Fatal(_) => ExitKind::Fatal,
    };
    Exit { kind, label: format!("{:?}", reason) }
}

/// Hands out the accounts of a backend state map, in the map's order, each
/// with its fields moved into an [`Entry`]: `U256` into its 32 big-endian
/// bytes, `H160` and `H256` by their byte arrays.  Claimed: the entries
/// stand for what the map holds, and, the keys of a map being distinct, no
/// address and no storage key occurs twice.
#[verifier::external_body]
fn state_of(state: &BTreeMap<H160, MemoryAccount>) -> (read: State)
    ensures
        read.wf(),
        read@ == held_state(*state),
{
    let slot = |(key, value): (&H256, &H256)| Slot {
        key: Word { bytes: key.0 },
        value: Word { bytes: value.0 },
    };
    let account = |a: &MemoryAccount| Account {
        nonce: Word { bytes: a.nonce.into() },
        balance: Word { bytes: a.balance.into() },
        storage: Storage { slots: a.storage.iter().map(slot).collect() },
        code: a.code.clone(),
    };
    let entry = |(at, a): (&H160, &MemoryAccount)| Entry {
        address: Address { bytes: at.0 },
        account: account(a),
    };
    State { entries: state.iter().map(entry).collect() }
}

/// Runs the transaction's code once, on a fresh backend made from `state`
/// and `vicinity`, with the stack and memory limits of this harness and the
/// frontier rules, and reads back what the engine reports.  The gas left is
/// never more than the gas given.  State and gas must be such that the
/// engine can run: [`State::balance_total`], [`State::nonces_leave_room`]
/// and a comparison with [`GAS_CEILING`] test it.
pub fn execute(
    state: &State,
    vicinity: &Vicinity,
    context: &CallContext,
    code: Rc<Vec<u8>>,
    data: Rc<Vec<u8>>,
    gas_limit: usize,
) -> (execution: Execution)
    requires
        runnable(*state, gas_limit),
    ensures
        execution.post_state.wf(),
        execution.gas <= gas_limit,
        execution@ == engine_outcome(
            state@,
            vicinity@,
            context@,
            code@,
            data@,
            gas_limit,
            STACK_LIMIT,
            MEMORY_LIMIT,
            DELETE_EMPTY,
        ),
{
    let engine_vicinity = backend_vicinity(vicinity);
    let engine_state = backend_state(state);
    assert(runnable(*state, gas_limit) && state@ == held_state(engine_state));
    let ran = run(
        engine_state,
        &engine_vicinity,
        backend_context(context),
        code,
        data,
        gas_limit,
        STACK_LIMIT,
        MEMORY_LIMIT,
        DELETE_EMPTY,
    );
    Execution {
        reason: exit_of(ran.0),
        return_value: ran.1,
        gas: ran.2,
        post_state: state_of(&ran.3),
    }
}

} // verus!
