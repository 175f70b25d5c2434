//! Converts a flat execution trace of a BPF virtual machine into a
//! per-function cost profile in the callgrind format.
//!
//! The library works on text that its caller has already read: it never
//! opens a file. Every executable function carries a contract over a
//! mathematical model of its arguments and results.

use vstd::prelude::*;

pub mod bpf;
pub mod calls;
pub mod dump;
pub mod error;
pub mod gen;
pub mod number;
pub mod pattern;
pub mod resolver;
pub mod text;
pub mod trace;

verus! {

/// Cost of executing instructions, in instruction units.
pub type Cost = u64;

/// Position of a function name in the resolver's table of names.
pub type Index = usize;

/// Target address of a call.
pub type Address = usize;

/// Program counter of an instruction.
pub type ProgramCounter = usize;

/// Address of the synthetic root context outside any traced function.
pub const GROUND_ZERO: Address = usize::MAX;

/// Gap between the columns of a generated assembly line.
pub const PADDING: &'static str = "        ";

/// Value of the `fl=` line of a profile without an assembly listing.
pub const DEFAULT_ASM: &'static str = "<none>";

} // verus!
