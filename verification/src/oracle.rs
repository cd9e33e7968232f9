//! Judging an execution: does what the engine reported meet what the
//! fixture expects?
//!
//! A fixture without an expectation asks for a failed execution, and nothing
//! but the exit reason is looked at.  A fixture with one asks, in this order,
//! for the same returned bytes, for every expected account to be found as
//! expected, and for the same gas left.  The first demand that is not met is
//! the mismatch reported.

use crate::engine::{exit_is_error, Execution, ExecutionView, Exit, ExitView};
use crate::state::{
    account_at, lemma_entries_view_contains, lemma_slots_view_key, slot_value, Account,
    AccountView, State, Storage,
};
use crate::word::Address;
use vstd::prelude::*;

verus! {

/// The expected outcome, in the machine's terms.
#[derive(Debug, PartialEq, Eq)]
pub struct Expectation {
    pub output: Vec<u8>,
    pub post_state: State,
    pub gas_left: usize,
}

/// The mathematical content of an [`Expectation`].  `order` lists the
/// addresses of the expected accounts in the order in which they are looked at.
pub struct ExpectationView {
    pub output: Seq<u8>,
    pub order: Seq<nat>,
    pub post_state: Map<nat, AccountView>,
    pub gas_left: nat,
}

impl View for Expectation {
    type V = ExpectationView;

    open spec fn view(&self) -> ExpectationView {
        ExpectationView {
            output: self.output@,
            order: self.post_state.order(),
            post_state: self.post_state@,
            gas_left: self.gas_left as nat,
        }
    }
}

/// Which fields of an account are not as expected.
#[derive(Clone, Copy, Debug, PartialEq, Eq, Structural)]
pub struct AccountDiff {
    pub balance: bool,
    pub nonce: bool,
    pub code: bool,
    pub storage: bool,
}

/// The first demand of a fixture that an execution did not meet, with the
/// expected and the actual value.
#[derive(Debug, PartialEq, Eq)]
pub enum OutcomeMismatchError {
    /// The fixture asks for a failed execution, and `reason` is no failure.
    ErrorExpected { reason: Exit },
    /// Other bytes were returned.
    ReturnValue { expected: Vec<u8>, actual: Vec<u8> },
    /// The account at `address` differs in the fields that `differing` marks.
    Account { address: Address, differing: AccountDiff, expected: Account, actual: Account },
    /// Another amount of gas is left.
    Gas { expected: usize, actual: usize },
}

/// The mathematical content of an [`OutcomeMismatchError`].
pub enum MismatchView {
    ErrorExpected { reason: ExitView },
    ReturnValue { expected: Seq<u8>, actual: Seq<u8> },
    Account { address: nat, differing: AccountDiff, expected: AccountView, actual: AccountView },
    Gas { expected: nat, actual: nat },
}

impl View for OutcomeMismatchError {
    type V = MismatchView;

    open spec fn view(&self) -> MismatchView {
        match *self {
            OutcomeMismatchError::ErrorExpected { reason } => MismatchView::ErrorExpected {
                reason: reason@,
            },
            OutcomeMismatchError::ReturnValue { expected, actual } => MismatchView::ReturnValue {
                expected: expected@,
                actual: actual@,
            },
            OutcomeMismatchError::Account {
                address,
                differing,
                expected,
                actual,
            } => MismatchView::Account {
                address: address@,
                differing,
                expected: expected@,
                actual: actual@,
            },
            OutcomeMismatchError::Gas { expected, actual } => MismatchView::Gas {
                expected: expected as nat,
                actual: actual as nat,
            },
        }
    }
}

/// An expected slot is met where it is zero, or where the actual storage
/// holds the same value under the same key.
pub open spec fn slot_met(expected: Map<nat, nat>, actual: Map<nat, nat>, key: nat) -> bool {
    slot_value(expected, key) != 0 ==> actual.contains_key(key) && actual[key] == expected[key]
}

/// Every expected slot that is not zero is there with the same value.
/// Slots that the expectation does not mention are not looked at.
pub open spec fn storage_matches(expected: Map<nat, nat>, actual: Map<nat, nat>) -> bool {
    forall|key: nat| #[trigger] slot_met(expected, actual, key)
}

/// The fields in which `actual` is not as `expected`.
pub open spec fn account_diff(expected: AccountView, actual: AccountView) -> AccountDiff {
    AccountDiff {
        balance: actual.balance != expected.balance,
        nonce: actual.nonce != expected.nonce,
        code: actual.code != expected.code,
        storage: !storage_matches(expected.storage, actual.storage),
    }
}

/// An account is as expected where balance, nonce and code are the same and
/// the storage matches.
pub open spec fn account_matches(expected: AccountView, actual: AccountView) -> bool {
    &&& actual.balance == expected.balance
    &&& actual.nonce == expected.nonce
    &&& actual.code == expected.code
    &&& storage_matches(expected.storage, actual.storage)
}

/// The expected account at `address` is found as expected.  An address
/// without an account in the actual state counts as the empty account.
pub open spec fn account_met(
    expected: Map<nat, AccountView>,
    actual: Map<nat, AccountView>,
    address: nat,
) -> bool {
    expected.contains_key(address) ==> account_matches(
        expected[address],
        account_at(actual, address),
    )
}

/// Every expected account is found as expected.  Accounts that the
/// expectation does not mention are not looked at.
pub open spec fn state_matches(expected: Map<nat, AccountView>, actual: Map<nat, AccountView>) -> bool {
    forall|address: nat| #[trigger] account_met(expected, actual, address)
}

/// The place in `order` of the first address whose account is not as
/// expected; the length of `order` where there is none.
pub open spec fn first_mismatch(
    order: Seq<nat>,
    expected: Map<nat, AccountView>,
    actual: Map<nat, AccountView>,
) -> int
    decreases order.len(),
{
    if order.len() == 0 {
        0
    } else {
        let before = first_mismatch(order.drop_last(), expected, actual);
        if before < order.len() - 1 {
            before
        } else if !account_met(expected, actual, order.last()) {
            order.len() - 1
        } else {
            order.len() as int
        }
    }
}

/// Whether an execution passes.  Where the fixture expects nothing, the
/// execution must have failed.  Where it expects an outcome, the returned
/// bytes are the expected ones, every expected account is found as expected,
/// and the gas left is the expected amount.
pub open spec fn passes(expected: Option<ExpectationView>, execution: ExecutionView) -> bool {
    match expected {
        None => exit_is_error(execution.exit.kind),
        Some(e) => {
            &&& execution.return_value == e.output
            &&& state_matches(e.post_state, execution.post_state)
            &&& execution.gas == e.gas_left
        },
    }
}

/// The verdict on a fixture that asks for a failed execution: only the kind
/// of the exit counts.
pub open spec fn judge_failure(execution: ExecutionView) -> Option<MismatchView> {
    if exit_is_error(execution.exit.kind) {
        None
    } else {
        Some(MismatchView::ErrorExpected { reason: execution.exit })
    }
}

/// The verdict on a fixture that asks for a successful execution.
pub open spec fn judge_success(
    expected: ExpectationView,
    execution: ExecutionView,
) -> Option<MismatchView> {
    let at = first_mismatch(expected.order, expected.post_state, execution.post_state);
    if execution.return_value != expected.output {
        Some(
            MismatchView::ReturnValue {
                expected: expected.output,
                actual: execution.return_value,
            },
        )
    } else if at < expected.order.len() {
        Some(
            MismatchView::Account {
                address: expected.order[at],
                differing: account_diff(
                    expected.post_state[expected.order[at]],
                    account_at(execution.post_state, expected.order[at]),
                ),
                expected: expected.post_state[expected.order[at]],
                actual: account_at(execution.post_state, expected.order[at]),
            },
        )
    } else if execution.gas != expected.gas_left {
        Some(MismatchView::Gas { expected: expected.gas_left, actual: execution.gas })
    } else {
        None
    }
}

/// `None` where the execution passes, else the first mismatch.
pub open spec fn judge(
    expected: Option<ExpectationView>,
    execution: ExecutionView,
) -> Option<MismatchView> {
    match expected {
        None => judge_failure(execution),
        Some(e) => judge_success(e, execution),
    }
}

/// A mismatch among the first `n` addresses is the first mismatch of the
/// whole order.
pub proof fn lemma_first_mismatch_prefix(
    order: Seq<nat>,
    expected: Map<nat, AccountView>,
    actual: Map<nat, AccountView>,
    n: int,
)
    requires
        0 <= n <= order.len(),
    ensures
        first_mismatch(order.take(n), expected, actual) <= n,
        first_mismatch(order.take(n), expected, actual) < n ==> first_mismatch(
            order,
            expected,
            actual,
        ) == first_mismatch(order.take(n), expected, actual),
        first_mismatch(order.take(n), expected, actual) == n ==> first_mismatch(
            order,
            expected,
            actual,
        ) >= n,
    decreases order.len() - n,
{
    lemma_first_mismatch_bounds(order.take(n), expected, actual);
    if n < order.len() {
        assert(order.take(n + 1).drop_last() =~= order.take(n));
        lemma_first_mismatch_prefix(order, expected, actual, n + 1);
    } else {
        assert(order.take(n) =~= order);
    }
}

/// The first mismatch lies within the order or at its end, and every address
/// before it is met.
pub proof fn lemma_first_mismatch_bounds(
    order: Seq<nat>,
    expected: Map<nat, AccountView>,
    actual: Map<nat, AccountView>,
)
    ensures
        0 <= first_mismatch(order, expected, actual) <= order.len(),
        forall|i: int|
            0 <= i < first_mismatch(order, expected, actual) ==> account_met(
                expected,
                actual,
                #[trigger] order[i],
            ),
        first_mismatch(order, expected, actual) < order.len() ==> !account_met(
            expected,
            actual,
            order[first_mismatch(order, expected, actual)],
        ),
    decreases order.len(),
{
    if order.len() > 0 {
        lemma_first_mismatch_bounds(order.drop_last(), expected, actual);
        assert forall|i: int| 0 <= i < first_mismatch(order, expected, actual) implies account_met(
            expected,
            actual,
            #[trigger] order[i],
        ) by {
            if i < order.len() - 1 {
                assert(order.drop_last()[i] == order[i]);
            }
        }
    }
}

impl AccountDiff {
    /// Whether any field differs.
    pub fn any(&self) -> (any: bool)
        ensures
            any == (self.balance || self.nonce || self.code || self.storage),
    {
        self.balance || self.nonce || self.code || self.storage
    }
}

/// Whether two byte strings have the same length and the same bytes.
pub fn bytes_equal(a: &Vec<u8>, b: &Vec<u8>) -> (equal: bool)
    ensures
        equal == (a@ == b@),
{
    if a.len() != b.len() {
        return false;
    }
    let mut i: usize = 0;
    while i < a.len()
        invariant
            i <= a.len(),
            a.len() == b.len(),
            forall|j: int| 0 <= j < i ==> a@[j] == b@[j],
        decreases a.len() - i,
    {
        if a[i] != b[i] {
            return false;
        }
        i += 1;
    }
    assert(a@ =~= b@);
    true
}

/// Whether the actual storage holds every expected slot that is not zero.
pub fn storage_agrees(expected: &Storage, actual: &Storage) -> (agrees: bool)
    ensures
        agrees == storage_matches(expected@, actual@),
{
    let mut i: usize = 0;
    while i < expected.slots.len()
        invariant
            i <= expected.slots.len(),
            forall|j: int|
                0 <= j < i ==> slot_met(expected@, actual@, #[trigger] expected.slots@[j].key@),
        decreases expected.slots.len() - i,
    {
        let key = expected.slots[i].key;
        let wanted = expected.value_at(&key);
        if !wanted.is_zero() {
            let met = match actual.get(&key) {
                Some(found) => found.same(&wanted),
                None => false,
            };
            if !met {
                assert(!slot_met(expected@, actual@, key@));
                return false;
            }
        }
        i += 1;
    }
    assert forall|key: nat| #[trigger] slot_met(expected@, actual@, key) by {
        if expected@.contains_key(key) {
            lemma_slots_view_key(expected.slots@, key);
        }
    }
    true
}

/// Compares an account with the one expected, field by field.
pub fn compare_accounts(expected: &Account, actual: &Account) -> (diff: AccountDiff)
    ensures
        diff == account_diff(expected@, actual@),
        !diff.balance && !diff.nonce && !diff.code && !diff.storage <==> account_matches(
            expected@,
            actual@,
        ),
{
    AccountDiff {
        balance: !actual.balance.same(&expected.balance),
        nonce: !actual.nonce.same(&expected.nonce),
        code: !bytes_equal(&actual.code, &expected.code),
        storage: !storage_agrees(&expected.storage, &actual.storage),
    }
}

/// Looks at the expected accounts in their order and reports the first that
/// the actual state does not show as expected.
pub fn check_state(expected: &State, actual: &State) -> (checked: Result<
    (),
    OutcomeMismatchError,
>)
    ensures
        checked is Ok <==> state_matches(expected@, actual@),
        match checked {
            Ok(()) => first_mismatch(expected.order(), expected@, actual@)
                == expected.order().len(),
            Err(mismatch) => {
                let at = first_mismatch(expected.order(), expected@, actual@);
                &&& 0 <= at < expected.order().len()
                &&& mismatch@ == MismatchView::Account {
                    address: expected.order()[at],
                    differing: account_diff(
                        expected@[expected.order()[at]],
                        account_at(actual@, expected.order()[at]),
                    ),
                    expected: expected@[expected.order()[at]],
                    actual: account_at(actual@, expected.order()[at]),
                }
            },
        },
{
    let ghost order = expected.order();
    let mut i: usize = 0;
    proof {
        assert(order.take(0) =~= Seq::<nat>::empty());
        lemma_state_order_covers(*expected);
        lemma_no_mismatch_means_match(order, expected@, actual@);
    }
    while i < expected.entries.len()
        invariant
            i <= expected.entries.len(),
            order == expected.order(),
            first_mismatch(order.take(i as int), expected@, actual@) == i,
        decreases expected.entries.len() - i,
    {
        let address = expected.entries[i].address;
        proof {
            assert(order.take(i + 1).drop_last() =~= order.take(i as int));
            assert(order.take(i + 1).last() == address@);
            lemma_entries_view_contains(expected.entries@, i as int);
        }
        let wanted = match expected.get(&address) {
            Some(account) => account,
            None => {
                assert(false);
                return Ok(());
            },
        };
        let found = actual.account_at(&address);
        let differing = compare_accounts(wanted, &found);
        if differing.any() {
            proof {
                lemma_first_mismatch_prefix(order, expected@, actual@, i + 1);
            }
            return Err(
                OutcomeMismatchError::Account {
                    address,
                    differing,
                    expected: wanted.clone(),
                    actual: found,
                },
            );
        }
        i += 1;
    }
    assert(order.take(i as int) =~= order);
    Ok(())
}

/// The content of an optional expectation.
pub open spec fn expectation_view(expected: Option<&Expectation>) -> Option<ExpectationView> {
    match expected {
        Some(e) => Some(e@),
        None => None,
    }
}

/// Judges one execution against what the fixture expects.
pub fn verdict(expected: Option<&Expectation>, execution: &Execution) -> (result: Result<
    (),
    OutcomeMismatchError,
>)
    ensures
        match result {
            Ok(()) => judge(expectation_view(expected), execution@) is None,
            Err(mismatch) => judge(expectation_view(expected), execution@) == Some(mismatch@),
        },
        result is Ok <==> passes(expectation_view(expected), execution@),
{
    proof {
        if let Some(e) = expected {
            lemma_state_order_covers(e.post_state);
            lemma_passes_where_nothing_mismatches(expectation_view(expected), execution@);
        }
    }
    match expected {
        None => {
            if execution.reason.is_error() {
                Ok(())
            } else {
                Err(OutcomeMismatchError::ErrorExpected { reason: execution.reason.clone() })
            }
        },
        Some(expected) => {
            if !bytes_equal(&execution.return_value, &expected.output) {
                let wanted = expected.output.clone();
                let returned = execution.return_value.clone();
                assert(wanted@ =~= expected.output@);
                assert(returned@ =~= execution.return_value@);
                return Err(
                    OutcomeMismatchError::ReturnValue { expected: wanted, actual: returned },
                );
            }
            check_state(&expected.post_state, &execution.post_state)?;
            if execution.gas != expected.gas_left {
                return Err(
                    OutcomeMismatchError::Gas {
                        expected: expected.gas_left,
                        actual: execution.gas,
                    },
                );
            }
            Ok(())
        },
    }
}

/// Whether `order` names every account that the expectation has.
pub open spec fn order_covers(order: Seq<nat>, expected: Map<nat, AccountView>) -> bool {
    forall|address: nat| #[trigger]
        expected.contains_key(address) ==> exists|i: int|
            0 <= i < order.len() && #[trigger] order[i] == address
}

/// The order of a state names every one of its accounts.
pub proof fn lemma_state_order_covers(state: State)
    ensures
        order_covers(state.order(), state@),
{
    let entries = state.entries@;
    assert forall|address: nat| #[trigger] state@.contains_key(address) implies exists|i: int|
        0 <= i < state.order().len() && #[trigger] state.order()[i] == address by {
        crate::state::lemma_entries_view_key(entries, address);
        let index = choose|index: int|
            0 <= index < entries.len() && #[trigger] entries[index].address@ == address;
        assert(state.order()[index] == address);
    }
}

/// Where the order names every expected account, no mismatch in the order
/// means that the whole expected state is met, and the other way round.
pub proof fn lemma_no_mismatch_means_match(
    order: Seq<nat>,
    expected: Map<nat, AccountView>,
    actual: Map<nat, AccountView>,
)
    requires
        order_covers(order, expected),
    ensures
        first_mismatch(order, expected, actual) == order.len() <==> state_matches(expected, actual),
{
    lemma_first_mismatch_bounds(order, expected, actual);
    let at = first_mismatch(order, expected, actual);
    if at == order.len() {
        assert forall|address: nat| #[trigger] account_met(expected, actual, address) by {
            if expected.contains_key(address) {
                let i = choose|i: int| 0 <= i < order.len() && #[trigger] order[i] == address;
                assert(account_met(expected, actual, order[i]));
            }
        }
    } else {
        assert(!account_met(expected, actual, order[at]));
    }
}

/// Each fixture falls under exactly one rule.  One without an expected
/// outcome is judged as a transaction that must fail, one with an expected
/// outcome as a transaction that must succeed, and never by both rules.
pub proof fn law_branch_exclusive(expected: Option<ExpectationView>, execution: ExecutionView)
    ensures
        (expected is None) != (expected is Some),
        expected is None ==> judge(expected, execution) == judge_failure(execution),
        expected matches Some(e) ==> judge(expected, execution) == judge_success(e, execution),
{
}

/// For a fixture without an expected outcome the verdict rests on the kind of
/// the exit alone: it passes exactly where the exit is an error, whatever
/// state, gas and returned bytes the execution left.
pub proof fn law_failure_verdict_by_exit_alone(first: ExecutionView, second: ExecutionView)
    ensures
        judge(None, first) is None <==> exit_is_error(first.exit.kind),
        first.exit == second.exit ==> judge(None, first) == judge(None, second),
        exit_is_error(first.exit.kind) == exit_is_error(second.exit.kind) ==> (judge(None, first)
            is None <==> judge(None, second) is None),
{
}

/// The returned bytes are compared exactly.  An execution that passes has
/// returned as many bytes as expected, and the same byte at every place; one
/// that returned another length, or one other byte, fails on the returned bytes.
pub proof fn law_return_value_exact(expected: ExpectationView, execution: ExecutionView)
    ensures
        judge(Some(expected), execution) is None ==> {
            &&& execution.return_value.len() == expected.output.len()
            &&& forall|i: int|
                0 <= i < expected.output.len() ==> execution.return_value[i] == expected.output[i]
        },
        execution.return_value.len() != expected.output.len() || (exists|i: int|
            0 <= i < expected.output.len() && execution.return_value[i] != expected.output[i])
            ==> judge(Some(expected), execution) == Some(
            MismatchView::ReturnValue {
                expected: expected.output,
                actual: execution.return_value,
            },
        ),
{
}

/// An account that the expectation does not mention changes no answer about
/// the accounts that it does mention.
pub proof fn lemma_extra_account_not_seen(
    order: Seq<nat>,
    expected: Map<nat, AccountView>,
    actual: Map<nat, AccountView>,
    address: nat,
    account: AccountView,
)
    requires
        !expected.contains_key(address),
    ensures
        forall|other: nat|
            account_met(expected, actual.insert(address, account), other) == #[trigger] account_met(
                expected,
                actual,
                other,
            ),
        first_mismatch(order, expected, actual.insert(address, account)) == first_mismatch(
            order,
            expected,
            actual,
        ),
    decreases order.len(),
{
    if order.len() > 0 {
        lemma_extra_account_not_seen(order.drop_last(), expected, actual, address, account);
    }
}

/// The comparison of states goes by the expectation and is not symmetric:
/// an actual state with an account more, at an address that the expectation
/// does not mention, gets the verdict that it got without it.
pub proof fn law_extra_accounts_ignored(
    expected: ExpectationView,
    execution: ExecutionView,
    address: nat,
    account: AccountView,
)
    requires
        !expected.post_state.contains_key(address),
    ensures
        state_matches(expected.post_state, execution.post_state) ==> state_matches(
            expected.post_state,
            execution.post_state.insert(address, account),
        ),
        judge(
            Some(expected),
            ExecutionView {
                post_state: execution.post_state.insert(address, account),
                ..execution
            },
        ) == judge(Some(expected), execution),
{
    lemma_extra_account_not_seen(
        expected.order,
        expected.post_state,
        execution.post_state,
        address,
        account,
    );
    lemma_first_mismatch_bounds(expected.order, expected.post_state, execution.post_state);
    if state_matches(expected.post_state, execution.post_state) {
        assert forall|other: nat| #[trigger]
            account_met(
                expected.post_state,
                execution.post_state.insert(address, account),
                other,
            ) by {
            assert(account_met(expected.post_state, execution.post_state, other));
        }
    }
}

/// Where the order names every expected account, there is no mismatch
/// exactly where the execution passes.
pub proof fn lemma_passes_where_nothing_mismatches(
    expected: Option<ExpectationView>,
    execution: ExecutionView,
)
    requires
        expected matches Some(e) ==> order_covers(e.order, e.post_state),
    ensures
        judge(expected, execution) is None <==> passes(expected, execution),
{
    if let Some(e) = expected {
        lemma_no_mismatch_means_match(e.order, e.post_state, execution.post_state);
        lemma_first_mismatch_bounds(e.order, e.post_state, execution.post_state);
    }
}

} // verus!
