//! The specification-level semantics of the interpreter.
//!
//! `VmView` is the mathematical state of one interpreter instance:
//! program counter, the three register banks, comparison flags and the
//! per-width division remainders. `spec_step` gives the meaning of one
//! instruction; `run_from` runs a segment of the library to completion,
//! recursing into callee segments for `CAL`. The executable machine in
//! `vm_script` is proved to produce exactly the outcome of `run_from`.
//!
//! The call convention is relative: the one-byte operand `t` of a `CAL`
//! executed in segment `base` transfers control to segment `base + t + 1`,
//! so a segment can only ever call later segments and every program
//! terminates or faults.

use vstd::prelude::*;

use crate::arith::wdiv_i128;
use crate::arith::wdiv_i32;
use crate::arith::wdiv_i64;
use crate::arith::wrem_i128;
use crate::arith::wrem_i32;
use crate::arith::wrem_i64;
use crate::codec::be_u128;
use crate::codec::be_u32;
use crate::codec::be_u64;
use crate::fault::Fault;
use crate::instruction::Opcode;
use crate::instruction::opcode_spec;
use crate::selector::Bank;
use crate::selector::bank_spec;
use crate::selector::sel_index;
use vstd::bytes::spec_u128_from_le_bytes;
use vstd::bytes::spec_u128_to_le_bytes;
use vstd::bytes::spec_u32_from_le_bytes;
use vstd::bytes::spec_u32_to_le_bytes;
use vstd::bytes::spec_u64_from_le_bytes;
use vstd::bytes::spec_u64_to_le_bytes;

verus! {

/// The state private to one interpreter instance: program counter, the
/// three register banks, the comparison flags and the three remainder
/// registers. The shared scratch stack is modelled separately.
pub ghost struct VmView {
    pub pc: nat,
    pub f_eq: bool,
    pub f_lt: bool,
    pub f_gt: bool,
    pub regs32: Seq<i32>,
    pub regs64: Seq<i64>,
    pub regs128: Seq<i128>,
    pub rem32: u32,
    pub rem64: u64,
    pub rem128: u128,
}

/// Each bank holds 64 registers.
pub open spec fn wf_view(s: VmView) -> bool {
    &&& s.regs32.len() == 64
    &&& s.regs64.len() == 64
    &&& s.regs128.len() == 64
}

/// The state of a freshly constructed instance: everything zeroed, flags
/// clear.
pub open spec fn init_view() -> VmView {
    VmView {
        pc: 0,
        f_eq: false,
        f_lt: false,
        f_gt: false,
        regs32: Seq::new(64, |i: int| 0i32),
        regs64: Seq::new(64, |i: int| 0i64),
        regs128: Seq::new(64, |i: int| 0i128),
        rem32: 0,
        rem64: 0,
        rem128: 0,
    }
}

/// What one instruction does, seen from the instance about to execute it.
pub ghost enum StepR {
    /// Execution aborts with this fault.
    Fault(Fault),
    /// A `HLT` was executed; the instance is done in this state.
    Halt(VmView),
    /// The instruction completed; execution continues in the new state with
    /// the new stack.
    Next(VmView, Seq<u8>),
    /// A `CAL` with operand byte `t` was decoded; the caller resumes in the
    /// given state once the callee halts.
    Call(u8, VmView),
}

/// How a run of one segment (and of everything it calls) ends.
pub ghost enum Outcome {
    /// The run aborted with this fault.
    Fault(Fault),
    /// The run halted cleanly, leaving this instance state and this scratch
    /// stack.
    Halt(VmView, Seq<u8>),
}

/// The state with the program counter advanced by `k` bytes.
pub open spec fn adv(s: VmView, k: nat) -> VmView {
    VmView { pc: (s.pc + k) as nat, ..s }
}

/// The effect of a two-register ALU opcode on one 32-bit operand pair:
/// the new destination value and the new 32-bit remainder register, or the
/// fault it raises.
pub open spec fn bin32(op: Opcode, a: i32, b: i32, rem: u32) -> Result<(i32, u32), Fault> {
    match op {
        Opcode::ADD => Ok((a.wrapping_add(b), rem)),
        Opcode::SUB => Ok((a.wrapping_sub(b), rem)),
        Opcode::MUL => Ok((a.wrapping_mul(b), rem)),
        Opcode::DIV => if b == 0 {
            Err(Fault::DivisionByZero)
        } else {
            Ok((wdiv_i32(a, b), wrem_i32(a, b) as u32))
        },
        Opcode::MOD => if b == 0 {
            Err(Fault::DivisionByZero)
        } else {
            Ok((wrem_i32(a, b), rem))
        },
        Opcode::AND => Ok((a & b, rem)),
        Opcode::OR => Ok((a | b, rem)),
        Opcode::XOR => Ok((a ^ b, rem)),
        _ => Err(Fault::UnknownOpcode),
    }
}

/// The effect of a two-register ALU opcode on one 64-bit operand pair.
pub open spec fn bin64(op: Opcode, a: i64, b: i64, rem: u64) -> Result<(i64, u64), Fault> {
    match op {
        Opcode::ADD => Ok((a.wrapping_add(b), rem)),
        Opcode::SUB => Ok((a.wrapping_sub(b), rem)),
        Opcode::MUL => Ok((a.wrapping_mul(b), rem)),
        Opcode::DIV => if b == 0 {
            Err(Fault::DivisionByZero)
        } else {
            Ok((wdiv_i64(a, b), wrem_i64(a, b) as u64))
        },
        Opcode::MOD => if b == 0 {
            Err(Fault::DivisionByZero)
        } else {
            Ok((wrem_i64(a, b), rem))
        },
        Opcode::AND => Ok((a & b, rem)),
        Opcode::OR => Ok((a | b, rem)),
        Opcode::XOR => Ok((a ^ b, rem)),
        _ => Err(Fault::UnknownOpcode),
    }
}

/// The effect of a two-register ALU opcode on one 128-bit operand pair.
pub open spec fn bin128(op: Opcode, a: i128, b: i128, rem: u128) -> Result<(i128, u128), Fault> {
    match op {
        Opcode::ADD => Ok((a.wrapping_add(b), rem)),
        Opcode::SUB => Ok((a.wrapping_sub(b), rem)),
        Opcode::MUL => Ok((a.wrapping_mul(b), rem)),
        Opcode::DIV => if b == 0 {
            Err(Fault::DivisionByZero)
        } else {
            Ok((wdiv_i128(a, b), wrem_i128(a, b) as u128))
        },
        Opcode::MOD => if b == 0 {
            Err(Fault::DivisionByZero)
        } else {
            Ok((wrem_i128(a, b), rem))
        },
        Opcode::AND => Ok((a & b, rem)),
        Opcode::OR => Ok((a | b, rem)),
        Opcode::XOR => Ok((a ^ b, rem)),
        _ => Err(Fault::UnknownOpcode),
    }
}

/// One two-register ALU instruction: both operands are read from the bank
/// selected by the first operand, at each selector's own index; the
/// destination and, for `DIV`, the remainder register of that bank are
/// written.
pub open spec fn step_bin(op: Opcode, prog: Seq<u8>, s: VmView, stk: Seq<u8>) -> StepR {
    if s.pc + 3 > prog.len() {
        StepR::Fault(Fault::StreamOverrun)
    } else {
        let sel1 = prog[s.pc as int + 1];
        let sel2 = prog[s.pc as int + 2];
        if bank_spec(sel1) is None || bank_spec(sel2) is None {
            StepR::Fault(Fault::InvalidRegister)
        } else {
            let i1 = sel_index(sel1) as int;
            let i2 = sel_index(sel2) as int;
            match bank_spec(sel1) {
                Some(Bank::Bank32) => match bin32(op, s.regs32[i1], s.regs32[i2], s.rem32) {
                    Ok((d, rem)) => StepR::Next(
                        VmView { regs32: s.regs32.update(i1, d), rem32: rem, ..adv(s, 3) },
                        stk,
                    ),
                    Err(f) => StepR::Fault(f),
                },
                Some(Bank::Bank64) => match bin64(op, s.regs64[i1], s.regs64[i2], s.rem64) {
                    Ok((d, rem)) => StepR::Next(
                        VmView { regs64: s.regs64.update(i1, d), rem64: rem, ..adv(s, 3) },
                        stk,
                    ),
                    Err(f) => StepR::Fault(f),
                },
                _ => match bin128(op, s.regs128[i1], s.regs128[i2], s.rem128) {
                    Ok((d, rem)) => StepR::Next(
                        VmView { regs128: s.regs128.update(i1, d), rem128: rem, ..adv(s, 3) },
                        stk,
                    ),
                    Err(f) => StepR::Fault(f),
                },
            }
        }
    }
}

/// A `LOD`: the selector's bank fixes the immediate's width (4, 8 or 16
/// bytes); the big-endian immediate is stored in the selected register.
pub open spec fn step_lod(prog: Seq<u8>, s: VmView, stk: Seq<u8>) -> StepR {
    if s.pc + 2 > prog.len() {
        StepR::Fault(Fault::StreamOverrun)
    } else {
        let sel = prog[s.pc as int + 1];
        let i = sel_index(sel) as int;
        match bank_spec(sel) {
            None => StepR::Fault(Fault::InvalidRegister),
            Some(Bank::Bank32) => if s.pc + 6 > prog.len() {
                StepR::Fault(Fault::StreamOverrun)
            } else {
                let v = be_u32(prog.subrange(s.pc as int + 2, s.pc as int + 6)) as i32;
                StepR::Next(VmView { regs32: s.regs32.update(i, v), ..adv(s, 6) }, stk)
            },
            Some(Bank::Bank64) => if s.pc + 10 > prog.len() {
                StepR::Fault(Fault::StreamOverrun)
            } else {
                let v = be_u64(prog.subrange(s.pc as int + 2, s.pc as int + 10)) as i64;
                StepR::Next(VmView { regs64: s.regs64.update(i, v), ..adv(s, 10) }, stk)
            },
            Some(Bank::Bank128) => if s.pc + 18 > prog.len() {
                StepR::Fault(Fault::StreamOverrun)
            } else {
                let v = be_u128(prog.subrange(s.pc as int + 2, s.pc as int + 18)) as i128;
                StepR::Next(VmView { regs128: s.regs128.update(i, v), ..adv(s, 18) }, stk)
            },
        }
    }
}

/// An `INC`: the selected register is incremented by one, wrapping at its
/// width.
pub open spec fn step_inc(prog: Seq<u8>, s: VmView, stk: Seq<u8>) -> StepR {
    if s.pc + 2 > prog.len() {
        StepR::Fault(Fault::StreamOverrun)
    } else {
        let sel = prog[s.pc as int + 1];
        let i = sel_index(sel) as int;
        match bank_spec(sel) {
            None => StepR::Fault(Fault::InvalidRegister),
            Some(Bank::Bank32) => StepR::Next(
                VmView { regs32: s.regs32.update(i, s.regs32[i].wrapping_add(1)), ..adv(s, 2) },
                stk,
            ),
            Some(Bank::Bank64) => StepR::Next(
                VmView { regs64: s.regs64.update(i, s.regs64[i].wrapping_add(1)), ..adv(s, 2) },
                stk,
            ),
            Some(Bank::Bank128) => StepR::Next(
                VmView { regs128: s.regs128.update(i, s.regs128[i].wrapping_add(1)), ..adv(s, 2) },
                stk,
            ),
        }
    }
}

/// A `NOT`: the selected register is replaced by its bitwise complement.
pub open spec fn step_not(prog: Seq<u8>, s: VmView, stk: Seq<u8>) -> StepR {
    if s.pc + 2 > prog.len() {
        StepR::Fault(Fault::StreamOverrun)
    } else {
        let sel = prog[s.pc as int + 1];
        let i = sel_index(sel) as int;
        match bank_spec(sel) {
            None => StepR::Fault(Fault::InvalidRegister),
            Some(Bank::Bank32) => StepR::Next(
                VmView { regs32: s.regs32.update(i, !s.regs32[i]), ..adv(s, 2) },
                stk,
            ),
            Some(Bank::Bank64) => StepR::Next(
                VmView { regs64: s.regs64.update(i, !s.regs64[i]), ..adv(s, 2) },
                stk,
            ),
            Some(Bank::Bank128) => StepR::Next(
                VmView { regs128: s.regs128.update(i, !s.regs128[i]), ..adv(s, 2) },
                stk,
            ),
        }
    }
}

/// A `SHR` or `SHL`: the one-byte shift amount is taken modulo the
/// register's width; `SHR` on a negative value is an arithmetic shift.
pub open spec fn step_shift(op: Opcode, prog: Seq<u8>, s: VmView, stk: Seq<u8>) -> StepR {
    if s.pc + 3 > prog.len() {
        StepR::Fault(Fault::StreamOverrun)
    } else {
        let sel = prog[s.pc as int + 1];
        let sh = prog[s.pc as int + 2] as u32;
        let i = sel_index(sel) as int;
        match bank_spec(sel) {
            None => StepR::Fault(Fault::InvalidRegister),
            Some(Bank::Bank32) => {
                let v = if op is SHR {
                    s.regs32[i].wrapping_shr(sh)
                } else {
                    s.regs32[i].wrapping_shl(sh)
                };
                StepR::Next(VmView { regs32: s.regs32.update(i, v), ..adv(s, 3) }, stk)
            },
            Some(Bank::Bank64) => {
                let v = if op is SHR {
                    s.regs64[i].wrapping_shr(sh)
                } else {
                    s.regs64[i].wrapping_shl(sh)
                };
                StepR::Next(VmView { regs64: s.regs64.update(i, v), ..adv(s, 3) }, stk)
            },
            Some(Bank::Bank128) => {
                let v = if op is SHR {
                    s.regs128[i].wrapping_shr(sh)
                } else {
                    s.regs128[i].wrapping_shl(sh)
                };
                StepR::Next(VmView { regs128: s.regs128.update(i, v), ..adv(s, 3) }, stk)
            },
        }
    }
}

/// A `CMP`: compares the two selected registers as signed integers of the
/// first operand's bank width and sets exactly one of the three flags.
pub open spec fn step_cmp(prog: Seq<u8>, s: VmView, stk: Seq<u8>) -> StepR {
    if s.pc + 3 > prog.len() {
        StepR::Fault(Fault::StreamOverrun)
    } else {
        let sel1 = prog[s.pc as int + 1];
        let sel2 = prog[s.pc as int + 2];
        if bank_spec(sel1) is None || bank_spec(sel2) is None {
            StepR::Fault(Fault::InvalidRegister)
        } else {
            let i1 = sel_index(sel1) as int;
            let i2 = sel_index(sel2) as int;
            let (a, b): (int, int) = match bank_spec(sel1) {
                Some(Bank::Bank32) => (s.regs32[i1] as int, s.regs32[i2] as int),
                Some(Bank::Bank64) => (s.regs64[i1] as int, s.regs64[i2] as int),
                _ => (s.regs128[i1] as int, s.regs128[i2] as int),
            };
            StepR::Next(
                VmView { f_eq: a == b, f_gt: a > b, f_lt: a < b, ..adv(s, 3) },
                stk,
            )
        }
    }
}

/// A `PSH`: the selected register's bytes are pushed onto the scratch
/// stack, least-significant byte first.
pub open spec fn step_psh(prog: Seq<u8>, s: VmView, stk: Seq<u8>) -> StepR {
    if s.pc + 2 > prog.len() {
        StepR::Fault(Fault::StreamOverrun)
    } else {
        let sel = prog[s.pc as int + 1];
        let i = sel_index(sel) as int;
        match bank_spec(sel) {
            None => StepR::Fault(Fault::InvalidRegister),
            Some(Bank::Bank32) => StepR::Next(
                adv(s, 2),
                stk + spec_u32_to_le_bytes(s.regs32[i] as u32),
            ),
            Some(Bank::Bank64) => StepR::Next(
                adv(s, 2),
                stk + spec_u64_to_le_bytes(s.regs64[i] as u64),
            ),
            Some(Bank::Bank128) => StepR::Next(
                adv(s, 2),
                stk + spec_u128_to_le_bytes(s.regs128[i] as u128),
            ),
        }
    }
}

/// A `POP`: the top bytes of the scratch stack, one register width of them,
/// are removed and their little-endian value is added (wrapping) into the
/// selected register. Popping more bytes than the stack holds faults.
pub open spec fn step_pop(prog: Seq<u8>, s: VmView, stk: Seq<u8>) -> StepR {
    if s.pc + 2 > prog.len() {
        StepR::Fault(Fault::StreamOverrun)
    } else {
        let sel = prog[s.pc as int + 1];
        let i = sel_index(sel) as int;
        match bank_spec(sel) {
            None => StepR::Fault(Fault::InvalidRegister),
            Some(Bank::Bank32) => if stk.len() < 4 {
                StepR::Fault(Fault::StackUnderflow)
            } else {
                let v = spec_u32_from_le_bytes(stk.skip(stk.len() - 4)) as i32;
                StepR::Next(
                    VmView {
                        regs32: s.regs32.update(i, s.regs32[i].wrapping_add(v)),
                        ..adv(s, 2)
                    },
                    stk.take(stk.len() - 4),
                )
            },
            Some(Bank::Bank64) => if stk.len() < 8 {
                StepR::Fault(Fault::StackUnderflow)
            } else {
                let v = spec_u64_from_le_bytes(stk.skip(stk.len() - 8)) as i64;
                StepR::Next(
                    VmView {
                        regs64: s.regs64.update(i, s.regs64[i].wrapping_add(v)),
                        ..adv(s, 2)
                    },
                    stk.take(stk.len() - 8),
                )
            },
            Some(Bank::Bank128) => if stk.len() < 16 {
                StepR::Fault(Fault::StackUnderflow)
            } else {
                let v = spec_u128_from_le_bytes(stk.skip(stk.len() - 16)) as i128;
                StepR::Next(
                    VmView {
                        regs128: s.regs128.update(i, s.regs128[i].wrapping_add(v)),
                        ..adv(s, 2)
                    },
                    stk.take(stk.len() - 16),
                )
            },
        }
    }
}

/// The meaning of the instruction at the program counter, for the instance
/// state `s` and the scratch stack `stk`.
pub open spec fn spec_step(prog: Seq<u8>, s: VmView, stk: Seq<u8>) -> StepR {
    if s.pc + 1 > prog.len() {
        StepR::Fault(Fault::StreamOverrun)
    } else {
        match opcode_spec(prog[s.pc as int]) {
            Opcode::HLT => StepR::Halt(adv(s, 1)),
            Opcode::NOP => StepR::Next(adv(s, 1), stk),
            Opcode::LOD => step_lod(prog, s, stk),
            Opcode::INC => step_inc(prog, s, stk),
            Opcode::ADD => step_bin(Opcode::ADD, prog, s, stk),
            Opcode::SUB => step_bin(Opcode::SUB, prog, s, stk),
            Opcode::MUL => step_bin(Opcode::MUL, prog, s, stk),
            Opcode::DIV => step_bin(Opcode::DIV, prog, s, stk),
            Opcode::MOD => step_bin(Opcode::MOD, prog, s, stk),
            Opcode::SHR => step_shift(Opcode::SHR, prog, s, stk),
            Opcode::SHL => step_shift(Opcode::SHL, prog, s, stk),
            Opcode::AND => step_bin(Opcode::AND, prog, s, stk),
            Opcode::OR => step_bin(Opcode::OR, prog, s, stk),
            Opcode::NOT => step_not(prog, s, stk),
            Opcode::XOR => step_bin(Opcode::XOR, prog, s, stk),
            Opcode::CAL => if s.pc + 2 > prog.len() {
                StepR::Fault(Fault::StreamOverrun)
            } else {
                StepR::Call(prog[s.pc as int + 1], adv(s, 2))
            },
            Opcode::CMP => step_cmp(prog, s, stk),
            Opcode::PSH => step_psh(prog, s, stk),
            Opcode::POP => step_pop(prog, s, stk),
            Opcode::ERR => StepR::Fault(Fault::UnknownOpcode),
        }
    }
}

/// Every non-faulting step advances the program counter and keeps it within
/// the stream.
pub proof fn lemma_step_progress(prog: Seq<u8>, s: VmView, stk: Seq<u8>)
    ensures
        (match spec_step(prog, s, stk) {
            StepR::Fault(_) => true,
            StepR::Halt(s2) => s.pc < s2.pc <= prog.len(),
            StepR::Next(s2, _) => s.pc < s2.pc <= prog.len(),
            StepR::Call(_, s2) => s.pc < s2.pc <= prog.len(),
        }),
{
}

/// Runs the segment `base` of the library to completion, starting from the
/// instance state `s` and the scratch stack `stk`. A `CAL` with operand `t`
/// runs segment `base + t + 1` in a fresh instance sharing the same stack,
/// then resumes the caller; a call target at or past the end of the library
/// faults.
pub open spec fn run_from(libs: Seq<Seq<u8>>, base: nat, s: VmView, stk: Seq<u8>) -> Outcome
    recommends
        base < libs.len(),
    decreases libs.len() - base, libs[base as int].len() + 1 - s.pc,
{
    let prog = libs[base as int];
    match spec_step(prog, s, stk) {
        StepR::Fault(f) => Outcome::Fault(f),
        StepR::Halt(s2) => Outcome::Halt(s2, stk),
        StepR::Next(s2, stk2) => {
            proof {
                lemma_step_progress(prog, s, stk);
            }
            run_from(libs, base, s2, stk2)
        },
        StepR::Call(t, s2) => {
            proof {
                lemma_step_progress(prog, s, stk);
            }
            if base + t + 1 >= libs.len() {
                Outcome::Fault(Fault::CallOutOfBounds)
            } else {
                match run_from(libs, (base + t + 1) as nat, init_view(), stk) {
                    Outcome::Fault(f) => Outcome::Fault(f),
                    Outcome::Halt(_, stk2) => run_from(libs, base, s2, stk2),
                }
            }
        },
    }
}

/// One unfolding of `run_from`: how the outcome of a run is built from the
/// meaning of its first instruction.
pub proof fn lemma_run_from_unfold(libs: Seq<Seq<u8>>, base: nat, s: VmView, stk: Seq<u8>)
    requires
        base < libs.len(),
    ensures
        (match spec_step(libs[base as int], s, stk) {
            StepR::Fault(f) => run_from(libs, base, s, stk) == Outcome::Fault(f),
            StepR::Halt(s2) => run_from(libs, base, s, stk) == Outcome::Halt(s2, stk),
            StepR::Next(s2, stk2) => run_from(libs, base, s, stk) == run_from(
                libs,
                base,
                s2,
                stk2,
            ),
            StepR::Call(t, s2) => run_from(libs, base, s, stk) == (if base + t + 1
                >= libs.len() {
                Outcome::Fault(Fault::CallOutOfBounds)
            } else {
                match run_from(libs, (base + t + 1) as nat, init_view(), stk) {
                    Outcome::Fault(f) => Outcome::Fault(f),
                    Outcome::Halt(s3, stk2) => run_from(libs, base, s2, stk2),
                }
            }),
        }),
{
}

} // verus!
