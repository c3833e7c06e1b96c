//! A small stack-based bytecode machine.
//!
//! The crate holds the opcode catalogue, the binary codec for instruction
//! streams, the execution engine and the assembly-text reader. Every
//! function is verified against a contract stated over mathematical models
//! of the data it handles.

use vstd::prelude::*;

pub mod assembler;
pub mod code;
pub mod error;
pub mod machine;
pub mod opcode;
pub mod rawbytes;
pub mod text;
pub mod vm;

verus! {

/// The only kind of datum the machine manipulates: a 64-bit signed integer.
pub type Value = i64;

/// An index into a program, or a distance between two such indices.
pub type Pointer = u64;

} // verus!
