//! Conformance harness for an account-based bytecode virtual machine.
//!
//! A [`vm::Test`] describes a world state, a block environment and one
//! transaction, optionally with the outcome that running the transaction must
//! have.  [`vm::test`] builds the engine's inputs from it, runs the engine once
//! and judges what came back.
//!
//! - [`word`]: numbers as big-endian bytes.
//! - [`fixture`]: the fixture as written.
//! - [`state`]: accounts and states of the machine.
//! - [`builder`]: from the one to the other.
//! - [`engine`]: the outside engine and what is believed of it.
//! - [`oracle`]: the rules of the verdict.
//! - [`vm`]: one fixture from its parts to its report.

pub mod builder;
pub mod engine;
pub mod fixture;
pub mod oracle;
pub mod state;
pub mod vm;
pub mod word;
