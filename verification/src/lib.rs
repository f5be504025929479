//! Arithmetization layer for a small zero-knowledge virtual machine.
//!
//! An execution trace (instruction steps, memory accesses, syscall records)
//! is turned into per-chip witness matrices over the Baby Bear field, and
//! each chip states the polynomial constraints that a valid witness must
//! satisfy. The prover/verifier backend that commits to the matrices and
//! checks the constraints is an external collaborator.

use vstd::prelude::*;

pub mod builder;
pub mod chips;
pub mod field;
pub mod matrix;
pub mod trace;

pub use trace::ExecutionTrace;

verus! {

/// Baby Bear prime: 2^31 - 2^27 + 1
pub const BABY_BEAR_PRIME: u32 = 2013265921;

/// Number of registers in the ZK IR VM
pub const NUM_REGISTERS: usize = 32;

/// Word size in bytes
pub const WORD_SIZE: usize = 4;

} // verus!
