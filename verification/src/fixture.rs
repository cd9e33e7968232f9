//! The fixture as it is written down: numbers of any size, accounts listed
//! by address, and the optional expectation in its three separate parts.

use crate::word::{Address, Uint};
use vstd::prelude::*;

verus! {

/// A storage slot of a fixture account.
#[derive(Clone, Debug, PartialEq, Eq)]
pub struct FixtureSlot {
    pub key: Uint,
    pub value: Uint,
}

/// An account as a fixture describes it.
#[derive(Clone, Debug, PartialEq, Eq)]
pub struct FixtureAccount {
    pub balance: Uint,
    pub nonce: Uint,
    pub code: Vec<u8>,
    pub storage: Vec<FixtureSlot>,
}

/// A fixture account with its address.  In a list of entries a later entry
/// for an address replaces an earlier one.
#[derive(Clone, Debug, PartialEq, Eq)]
pub struct FixtureEntry {
    pub address: Address,
    pub account: FixtureAccount,
}

/// The block that the transaction runs in.
#[derive(Clone, Debug, PartialEq, Eq)]
pub struct Env {
    pub author: Address,
    pub difficulty: Uint,
    pub gas_limit: Uint,
    pub number: Uint,
    pub timestamp: Uint,
}

/// The one transaction of a fixture.
#[derive(Clone, Debug, PartialEq, Eq)]
pub struct Transaction {
    /// The account whose code runs.
    pub address: Address,
    /// The caller.
    pub sender: Address,
    /// The code that runs.
    pub code: Vec<u8>,
    /// The input data.
    pub data: Vec<u8>,
    /// The gas limit.
    pub gas: Uint,
    pub gas_price: Uint,
    /// The account that started the transaction.
    pub origin: Address,
    /// The value transferred.
    pub value: Uint,
}

/// The outcome that a fixture expects of a transaction that must succeed.
#[derive(Clone, Debug, PartialEq, Eq)]
pub struct ExpectedOutcome {
    pub output: Vec<u8>,
    pub post_state: Vec<FixtureEntry>,
    pub gas_left: Uint,
}

/// A fixture whose expectation is there only in part.  The three flags say
/// which of its parts the fixture carried.
#[derive(Clone, Copy, Debug, PartialEq, Eq, Structural)]
pub struct MalformedFixtureError {
    pub has_output: bool,
    pub has_gas_left: bool,
    pub has_post_state: bool,
}

/// Output, gas left and post-state travel together: a fixture carries all
/// three or none of them.
pub open spec fn expectation_complete(
    has_output: bool,
    has_gas_left: bool,
    has_post_state: bool,
) -> bool {
    has_output == has_gas_left && has_gas_left == has_post_state
}

} // verus!
