//! A cross-chain intent filler: rebuilds orders from the logs of the
//! transaction that opened them, converts the delegation credentials they
//! carry, and builds the destination-chain fill transaction.

pub mod bytes;
pub mod abi;
pub mod credential;
pub mod fill;
pub mod order;
pub mod service;
