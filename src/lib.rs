//! On-chain collateral vaults and a perpetual-position registry.
//!
//! The crate holds the logic of the program: the little-endian byte codec,
//! program-derived address derivation, the fixed-capacity vault registry,
//! position records, the create-if-empty account protocol, instruction
//! decoding and the instruction handlers. A handler is a function from the
//! accounts of a call (as plain values) to the ordered list of actions that
//! the host must perform; the host-facing glue that performs them lives
//! outside this crate's verified part.

use vstd::prelude::*;

pub mod address;
pub mod registry;
pub mod position;
pub mod instruction;
pub mod action;
pub mod lifecycle;
pub mod token;
pub mod processor;
