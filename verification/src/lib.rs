//! A register-based bytecode interpreter.
//!
//! Programs are compact binary instruction streams executed against three
//! fixed-size banks of signed registers (32, 64 and 128 bits wide), a shared
//! byte-addressable scratch stack, and a library of instruction streams that
//! programs can call into. The interpreter is specified by a recursive
//! spec-level semantics (`semantics::run_from`) and the executable machine is
//! proved to refine it.

pub mod arith;
pub mod assembler;
pub mod bytebuf;
pub mod codec;
pub mod fault;
pub mod instruction;
pub mod laws;
pub mod parser;
pub mod selector;
pub mod semantics;
pub mod stack;
pub mod vm;
pub mod vm_script;

use vstd::prelude::*;

verus! {

} // verus!
