//! One fixture, and the run that tests the machine against it.

use crate::builder::{
    convert_state, entries_fault, fits_word, fixture_order, fixture_state_view,
    fixture_total_balance, lemma_fixture_state_key, StateConversionError,
};
use crate::engine::{
    engine_outcome, execute, CallContext, ContextView, ExecutionView, Exit, ExitView, Vicinity,
    VicinityView, DELETE_EMPTY, GAS_CEILING, MEMORY_LIMIT, STACK_LIMIT,
};
use crate::fixture::{
    expectation_complete, Env, ExpectedOutcome, FixtureEntry, MalformedFixtureError, Transaction,
};
use crate::oracle::{
    judge, lemma_passes_where_nothing_mismatches, passes, verdict, Expectation,
    ExpectationView, MismatchView, OutcomeMismatchError,
};
use crate::state::{nonces_have_room, State};
use crate::word::{word_limit, Uint, Word};
use std::rc::Rc;
use vstd::prelude::*;

verus! {

/// A fixture: the state before, the block, the transaction, and the
/// expected outcome.  A fixture without an expected outcome says that the
/// transaction must fail.  The expected outcome is there as a whole or not
/// at all, so a fixture that asks for failure carries neither an expected
/// state nor an expected amount of gas.
#[derive(Clone, Debug, PartialEq, Eq)]
pub struct Test {
    pub env: Env,
    pub transaction: Transaction,
    pub pre_state: Vec<FixtureEntry>,
    pub expected: Option<ExpectedOutcome>,
}

impl Test {
    /// Puts a fixture together from its parts as they were read.  The
    /// expectation is accepted where it is whole or wholly absent.
    pub fn new(
        env: Env,
        transaction: Transaction,
        pre_state: Vec<FixtureEntry>,
        output: Option<Vec<u8>>,
        gas_left: Option<Uint>,
        post_state: Option<Vec<FixtureEntry>>,
    ) -> (made: Result<Test, MalformedFixtureError>)
        ensures
            made is Ok <==> expectation_complete(
                output is Some,
                gas_left is Some,
                post_state is Some,
            ),
            made matches Ok(test) ==> {
                &&& test.env == env
                &&& test.transaction == transaction
                &&& test.pre_state == pre_state
                &&& test.expected is Some == output is Some
                &&& test.expected matches Some(e) ==> {
                    &&& Some(e.output) == output
                    &&& Some(e.gas_left) == gas_left
                    &&& Some(e.post_state) == post_state
                }
            },
            made matches Err(e) ==> e == (MalformedFixtureError {
                has_output: output is Some,
                has_gas_left: gas_left is Some,
                has_post_state: post_state is Some,
            }),
    {
        match (output, gas_left, post_state) {
            (Some(output), Some(gas_left), Some(post_state)) => Ok(
                Test {
                    env,
                    transaction,
                    pre_state,
                    expected: Some(ExpectedOutcome { output, post_state, gas_left }),
                },
            ),
            (None, None, None) => Ok(Test { env, transaction, pre_state, expected: None }),
            (output, gas_left, post_state) => Err(
                MalformedFixtureError {
                    has_output: output.is_some(),
                    has_gas_left: gas_left.is_some(),
                    has_post_state: post_state.is_some(),
                },
            ),
        }
    }

    /// The first number of block and transaction that the environment
    /// record cannot hold.
    pub open spec fn vicinity_fault(&self) -> Option<StateConversionError> {
        if !fits_word(self.transaction.gas_price@) {
            Some(StateConversionError::GasPrice)
        } else if !fits_word(self.env.number@) {
            Some(StateConversionError::BlockNumber)
        } else if !fits_word(self.env.timestamp@) {
            Some(StateConversionError::BlockTimestamp)
        } else if !fits_word(self.env.difficulty@) {
            Some(StateConversionError::BlockDifficulty)
        } else if !fits_word(self.env.gas_limit@) {
            Some(StateConversionError::BlockGasLimit)
        } else {
            None
        }
    }

    /// The environment that the fixture describes: price and origin from the
    /// transaction, the rest from the block, no chain id and no block hashes.
    pub open spec fn vicinity_view(&self) -> VicinityView {
        VicinityView {
            gas_price: self.transaction.gas_price@,
            origin: self.transaction.origin@,
            chain_id: 0,
            block_hashes: Seq::empty(),
            block_number: self.env.number@,
            block_coinbase: self.env.author@,
            block_timestamp: self.env.timestamp@,
            block_difficulty: self.env.difficulty@,
            block_gas_limit: self.env.gas_limit@,
        }
    }

    /// The call context that the transaction gives: its target runs, its
    /// sender calls, its value is sent along.
    pub open spec fn context_view(&self) -> ContextView {
        ContextView {
            address: self.transaction.address@,
            caller: self.transaction.sender@,
            apparent_value: self.transaction.value@,
        }
    }

    /// The state before the transaction, as the machine holds it.
    pub fn unwrap_to_pre_state(&self) -> (built: Result<State, StateConversionError>)
        ensures
            match built {
                Ok(state) => {
                    &&& entries_fault(self.pre_state@) is None
                    &&& state.wf()
                    &&& state@ == fixture_state_view(self.pre_state@)
                    &&& state.total_balance() == fixture_total_balance(self.pre_state@)
                },
                Err(error) => {
                    &&& entries_fault(self.pre_state@) matches Some(fault)
                    &&& error == (StateConversionError::PreState {
                        address: fault.0,
                        field: fault.1,
                    })
                },
            },
    {
        match convert_state(&self.pre_state) {
            Ok(state) => Ok(state),
            Err(fault) => Err(StateConversionError::PreState { address: fault.0, field: fault.1 }),
        }
    }

    /// The environment record of the machine.
    pub fn unwrap_to_vicinity(&self) -> (built: Result<Vicinity, StateConversionError>)
        ensures
            match built {
                Ok(vicinity) => self.vicinity_fault() is None && vicinity@ == self.vicinity_view(),
                Err(error) => self.vicinity_fault() == Some(error),
            },
    {
        let gas_price = match self.transaction.gas_price.to_word() {
            Some(word) => word,
            None => {
                return Err(StateConversionError::GasPrice);
            },
        };
        let block_number = match self.env.number.to_word() {
            Some(word) => word,
            None => {
                return Err(StateConversionError::BlockNumber);
            },
        };
        let block_timestamp = match self.env.timestamp.to_word() {
            Some(word) => word,
            None => {
                return Err(StateConversionError::BlockTimestamp);
            },
        };
        let block_difficulty = match self.env.difficulty.to_word() {
            Some(word) => word,
            None => {
                return Err(StateConversionError::BlockDifficulty);
            },
        };
        let block_gas_limit = match self.env.gas_limit.to_word() {
            Some(word) => word,
            None => {
                return Err(StateConversionError::BlockGasLimit);
            },
        };
        let vicinity = Vicinity {
            gas_price,
            origin: self.transaction.origin,
            chain_id: Word::zero(),
            block_hashes: Vec::new(),
            block_number,
            block_coinbase: self.env.author,
            block_timestamp,
            block_difficulty,
            block_gas_limit,
        };
        assert(vicinity@.block_hashes =~= Seq::<nat>::empty());
        Ok(vicinity)
    }

    /// The code that runs, in a buffer of its own that can be shared.
    pub fn unwrap_to_code(&self) -> (code: Rc<Vec<u8>>)
        ensures
            code@ == self.transaction.code@,
    {
        let code = self.transaction.code.clone();
        assert(code@ =~= self.transaction.code@);
        Rc::new(code)
    }

    /// The input data, in a buffer of its own that can be shared.
    pub fn unwrap_to_data(&self) -> (data: Rc<Vec<u8>>)
        ensures
            data@ == self.transaction.data@,
    {
        let data = self.transaction.data.clone();
        assert(data@ =~= self.transaction.data@);
        Rc::new(data)
    }

    /// The call context of the transaction.
    pub fn unwrap_to_context(&self) -> (built: Result<CallContext, StateConversionError>)
        ensures
            match built {
                Ok(context) => fits_word(self.transaction.value@) && context@
                    == self.context_view(),
                Err(error) => !fits_word(self.transaction.value@) && error
                    == StateConversionError::Value,
            },
    {
        match self.transaction.value.to_word() {
            Some(apparent_value) => Ok(
                CallContext {
                    address: self.transaction.address,
                    caller: self.transaction.sender,
                    apparent_value,
                },
            ),
            None => Err(StateConversionError::Value),
        }
    }

    /// The bytes that the transaction is expected to return.
    pub fn unwrap_to_return_value(&self) -> (output: Vec<u8>)
        requires
            self.expected is Some,
        ensures
            output@ == self.expected->0.output@,
    {
        match &self.expected {
            Some(expected) => {
                let output = expected.output.clone();
                assert(output@ =~= expected.output@);
                output
            },
            None => Vec::new(),
        }
    }

    /// The gas limit of the transaction, as a count that the machine takes.
    pub fn unwrap_to_gas_limit(&self) -> (limit: Result<usize, StateConversionError>)
        ensures
            match limit {
                Ok(gas) => gas == self.transaction.gas@,
                Err(error) => self.transaction.gas@ > usize::MAX && error
                    == StateConversionError::Gas,
            },
    {
        match self.transaction.gas.to_usize() {
            Some(gas) => Ok(gas),
            None => Err(StateConversionError::Gas),
        }
    }

    /// The gas that is expected to be left, as a count that the machine gives.
    pub fn unwrap_to_post_gas(&self) -> (left: Result<usize, StateConversionError>)
        requires
            self.expected is Some,
        ensures
            match left {
                Ok(gas) => gas == self.expected->0.gas_left@,
                Err(error) => self.expected->0.gas_left@ > usize::MAX && error
                    == StateConversionError::GasLeft,
            },
    {
        match &self.expected {
            Some(expected) => match expected.gas_left.to_usize() {
                Some(gas) => Ok(gas),
                None => Err(StateConversionError::GasLeft),
            },
            None => Err(StateConversionError::GasLeft),
        }
    }

    /// The state that is expected after the transaction, as the machine
    /// holds it.
    pub fn unwrap_to_post_state(&self) -> (built: Result<State, StateConversionError>)
        requires
            self.expected is Some,
        ensures
            match built {
                Ok(state) => {
                    &&& entries_fault(self.expected->0.post_state@) is None
                    &&& state.wf()
                    &&& state@ == fixture_state_view(self.expected->0.post_state@)
                    &&& state.order() == fixture_order(self.expected->0.post_state@)
                },
                Err(error) => {
                    &&& entries_fault(self.expected->0.post_state@) matches Some(fault)
                    &&& error == (StateConversionError::PostState {
                        address: fault.0,
                        field: fault.1,
                    })
                },
            },
    {
        match &self.expected {
            Some(expected) => match convert_state(&expected.post_state) {
                Ok(state) => Ok(state),
                Err(fault) => Err(
                    StateConversionError::PostState { address: fault.0, field: fault.1 },
                ),
            },
            None => Ok(State::new()),
        }
    }

    /// The expectation of the fixture in the machine's terms, if it has one.
    pub open spec fn expectation(&self) -> Option<ExpectationView> {
        match self.expected {
            None => None,
            Some(e) => Some(
                ExpectationView {
                    output: e.output@,
                    order: fixture_order(e.post_state@),
                    post_state: fixture_state_view(e.post_state@),
                    gas_left: e.gas_left@,
                },
            ),
        }
    }

    /// The first number of the expectation that the machine cannot hold:
    /// the gas left, then the expected accounts in their order.
    pub open spec fn expectation_fault(&self) -> Option<StateConversionError> {
        match self.expected {
            None => None,
            Some(e) => if e.gas_left@ > usize::MAX {
                Some(StateConversionError::GasLeft)
            } else {
                match entries_fault(e.post_state@) {
                    Some(fault) => Some(
                        StateConversionError::PostState { address: fault.0, field: fault.1 },
                    ),
                    None => None,
                }
            },
        }
    }

    /// The first reason for which the fixture cannot be run, in the order in
    /// which the inputs are built: the state before with the sum of its
    /// balances, the environment, the gas limit with the ceiling of the
    /// engine and the room it leaves to the nonces, the value sent, and the
    /// expectation.
    pub open spec fn fault(&self) -> Option<StateConversionError> {
        match entries_fault(self.pre_state@) {
            Some(fault) => Some(
                StateConversionError::PreState { address: fault.0, field: fault.1 },
            ),
            None => if fixture_total_balance(self.pre_state@) >= word_limit() {
                Some(StateConversionError::BalanceTotal)
            } else if self.vicinity_fault() is Some {
                self.vicinity_fault()
            } else if self.transaction.gas@ > usize::MAX {
                Some(StateConversionError::Gas)
            } else if self.transaction.gas@ > GAS_CEILING {
                Some(StateConversionError::GasCeiling)
            } else if !nonces_have_room(
                fixture_state_view(self.pre_state@),
                self.transaction.gas@,
            ) {
                Some(StateConversionError::NonceRoom)
            } else if !fits_word(self.transaction.value@) {
                Some(StateConversionError::Value)
            } else {
                self.expectation_fault()
            },
        }
    }

    /// What the engine reports when it runs the transaction of the fixture.
    pub open spec fn outcome(&self) -> ExecutionView {
        engine_outcome(
            fixture_state_view(self.pre_state@),
            self.vicinity_view(),
            self.context_view(),
            self.transaction.code@,
            self.transaction.data@,
            self.transaction.gas@ as usize,
            STACK_LIMIT,
            MEMORY_LIMIT,
            DELETE_EMPTY,
        )
    }

    /// The expected outcome in the machine's terms: `None` for a fixture
    /// that asks for a failed execution.
    pub fn unwrap_to_expectation(&self) -> (built: Result<
        Option<Expectation>,
        StateConversionError,
    >)
        ensures
            match built {
                Ok(expectation) => {
                    &&& self.expectation_fault() is None
                    &&& expectation is Some == self.expected is Some
                    &&& expectation matches Some(e) ==> Some(e@) == self.expectation()
                },
                Err(error) => self.expectation_fault() == Some(error),
            },
    {
        if self.expected.is_none() {
            return Ok(None);
        }
        let gas_left = self.unwrap_to_post_gas()?;
        let post_state = self.unwrap_to_post_state()?;
        Ok(Some(Expectation { output: self.unwrap_to_return_value(), post_state, gas_left }))
    }
}

/// Why a fixture did not pass.
#[derive(Debug, PartialEq, Eq)]
pub enum Failure {
    /// The fixture could not be run: a number of it does not fit the machine.
    Conversion(StateConversionError),
    /// The fixture ran, and the execution is not what it expects.
    Mismatch(OutcomeMismatchError),
}

/// The mathematical content of a [`Failure`].
pub enum FailureView {
    Conversion(StateConversionError),
    Mismatch(MismatchView),
}

impl View for Failure {
    type V = FailureView;

    open spec fn view(&self) -> FailureView {
        match *self {
            Failure::Conversion(error) => FailureView::Conversion(error),
            Failure::Mismatch(mismatch) => FailureView::Mismatch(mismatch@),
        }
    }
}

/// What testing one fixture gave: its name, how the execution ended and
/// how much gas it left if there was one, and the failure if it did not pass.
#[derive(Debug, PartialEq, Eq)]
pub struct Report {
    pub name: String,
    pub exit: Option<Exit>,
    pub gas: Option<usize>,
    pub failure: Option<Failure>,
}

/// The mathematical content of a [`Report`].
pub struct ReportView {
    pub name: Seq<char>,
    pub exit: Option<ExitView>,
    pub gas: Option<nat>,
    pub failure: Option<FailureView>,
}

impl View for Report {
    type V = ReportView;

    open spec fn view(&self) -> ReportView {
        ReportView {
            name: self.name@,
            exit: match self.exit {
                Some(exit) => Some(exit@),
                None => None,
            },
            gas: match self.gas {
                Some(gas) => Some(gas as nat),
                None => None,
            },
            failure: match self.failure {
                Some(failure) => Some(failure@),
                None => None,
            },
        }
    }
}

impl Report {
    /// Whether the fixture passed.
    pub fn passed(&self) -> (passed: bool)
        ensures
            passed == (self@.failure is None),
    {
        self.failure.is_none()
    }
}

/// The report that testing `test` under `name` gives.  A fixture with a
/// number that does not fit is not run.  Any other fixture is run once, and
/// the execution is judged against its expectation.
pub open spec fn report_of(name: Seq<char>, test: Test) -> ReportView {
    match test.fault() {
        Some(error) => ReportView {
            name,
            exit: None,
            gas: None,
            failure: Some(FailureView::Conversion(error)),
        },
        None => ReportView {
            name,
            exit: Some(test.outcome().exit),
            gas: Some(test.outcome().gas),
            failure: match judge(test.expectation(), test.outcome()) {
                Some(mismatch) => Some(FailureView::Mismatch(mismatch)),
                None => None,
            },
        },
    }
}

/// The report on a fixture that could not be run.
fn not_run(name: &str, error: StateConversionError) -> (report: Report)
    ensures
        report@ == (ReportView {
            name: name@,
            exit: None,
            gas: None,
            failure: Some(FailureView::Conversion(error)),
        }),
{
    Report {
        name: name.to_owned(),
        exit: None,
        gas: None,
        failure: Some(Failure::Conversion(error)),
    }
}

/// Tests the machine against one fixture: builds the inputs, runs the
/// transaction once, and judges the execution.  A fixture that the machine
/// cannot take is reported and not run.  The gas that a run leaves is never
/// more than the gas limit of the transaction, so a fixture that expects
/// more gas to be left than its transaction is given does not pass.
pub fn test(name: &str, fixture: Test) -> (report: Report)
    ensures
        report@ == report_of(name@, fixture),
        report@.gas matches Some(left) ==> left <= fixture.transaction.gas@,
        fixture.expected matches Some(e) && e.gas_left@ > fixture.transaction.gas@
            ==> report@.failure is Some,
{
    let state = match fixture.unwrap_to_pre_state() {
        Ok(state) => state,
        Err(error) => {
            return not_run(name, error);
        },
    };
    if state.balance_total().is_none() {
        return not_run(name, StateConversionError::BalanceTotal);
    }
    let vicinity = match fixture.unwrap_to_vicinity() {
        Ok(vicinity) => vicinity,
        Err(error) => {
            return not_run(name, error);
        },
    };
    let gas_limit = match fixture.unwrap_to_gas_limit() {
        Ok(gas_limit) => gas_limit,
        Err(error) => {
            return not_run(name, error);
        },
    };
    if gas_limit > GAS_CEILING {
        return not_run(name, StateConversionError::GasCeiling);
    }
    if !state.nonces_leave_room(gas_limit) {
        return not_run(name, StateConversionError::NonceRoom);
    }
    let context = match fixture.unwrap_to_context() {
        Ok(context) => context,
        Err(error) => {
            return not_run(name, error);
        },
    };
    let expectation = match fixture.unwrap_to_expectation() {
        Ok(expectation) => expectation,
        Err(error) => {
            return not_run(name, error);
        },
    };
    let execution = execute(
        &state,
        &vicinity,
        &context,
        fixture.unwrap_to_code(),
        fixture.unwrap_to_data(),
        gas_limit,
    );
    let failure = match verdict(expectation.as_ref(), &execution) {
        Ok(()) => None,
        Err(mismatch) => Some(Failure::Mismatch(mismatch)),
    };
    Report { name: name.to_owned(), exit: Some(execution.reason), gas: Some(execution.gas), failure }
}

/// A fixture that can be run passes exactly where the execution of its
/// transaction passes: it failed where the fixture expects nothing, and it
/// gave the expected bytes, accounts and gas where the fixture expects an
/// outcome.  A fixture that cannot be run does not pass.
pub proof fn law_report_passes_where_execution_does(name: Seq<char>, test: Test)
    ensures
        report_of(name, test).failure is None <==> test.fault() is None && passes(
            test.expectation(),
            test.outcome(),
        ),
{
    if let Some(e) = test.expected {
        assert forall|address: nat| #[trigger]
            fixture_state_view(e.post_state@).contains_key(address) implies exists|i: int|
            0 <= i < fixture_order(e.post_state@).len() && #[trigger] fixture_order(
                e.post_state@,
            )[i] == address by {
            lemma_fixture_state_key(e.post_state@, address);
        }
    }
    lemma_passes_where_nothing_mismatches(test.expectation(), test.outcome());
}

/// Testing is deterministic: two reports on the same fixture under the same
/// name agree in the exit reason and in the verdict, and two executions of
/// its transaction agree in exit reason, returned bytes, gas left and state.
pub proof fn law_same_fixture_same_report(
    name: Seq<char>,
    test: Test,
    first: ReportView,
    second: ReportView,
    first_run: ExecutionView,
    second_run: ExecutionView,
)
    requires
        first == report_of(name, test),
        second == report_of(name, test),
        first_run == test.outcome(),
        second_run == test.outcome(),
    ensures
        first == second,
        first_run.exit == second_run.exit,
        first_run.return_value == second_run.return_value,
        first_run.gas == second_run.gas,
        first_run.post_state == second_run.post_state,
{
}

} // verus!
