//! The rules of a recursive Ethereum light client.
//!
//! A service follows the beacon chain. For each new head it proves a Helios light client update,
//! proves a recursion step over it, and keeps the execution state root and the block height that
//! the step commits to. This crate holds what is decided along the way:
//!
//! - [`circuit`]: which updates the recursion circuit accepts, and what it outputs for them;
//! - [`session`]: the order of the service's work and what becomes of its [`state`];
//! - [`wire`]: the byte formats that the service and the circuits exchange;
//! - [`groth16`]: when a Groth16 proof counts as verified;
//! - [`blueprint`]: how the circuit sources are generated;
//! - [`command`]: which of its tasks the service carries out.
//!
//! Network access, proving, the hashing and encoding of consensus types and storage are left to the
//! caller.

pub mod blueprint;
pub mod bytes;
pub mod circuit;
pub mod command;
pub mod groth16;
pub mod session;
pub mod state;
pub mod wire;
