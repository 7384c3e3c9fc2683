//! The fatal fault taxonomy.
//!
//! Every fault aborts the whole run, including any pending nested calls:
//! there is no recoverable-error path. The interpreter reports the fault kind
//! to the top-level caller instead of terminating the process.

use vstd::prelude::*;

verus! {

/// A fatal execution fault. Any of these aborts the entire run.
#[derive(Clone, Copy, Debug, PartialEq, Eq, Structural)]
pub enum Fault {
    /// Decoding would read past the end of the instruction stream
    /// (usually a missing HLT).
    StreamOverrun,
    /// A register selector whose bank bits decode to the undefined bank.
    InvalidRegister,
    /// Division or modulo with a zero divisor.
    DivisionByZero,
    /// POP with fewer pushed bytes than the register's width.
    StackUnderflow,
    /// A call operand that does not resolve to a valid library index.
    CallOutOfBounds,
    /// An opcode byte outside the instruction set.
    UnknownOpcode,
}

} // verus!
