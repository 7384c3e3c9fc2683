//! The executable interpreter over one library of instruction streams.
//!
//! A `VMScript` is the state private to one interpreter instance. `run`
//! executes the entry segment of a library against a shared scratch stack;
//! a `CAL` spawns a fresh instance over the callee segment, sharing only the
//! stack. Every public contract here is stated against the specification
//! semantics in `semantics`: a run returns `Ok` exactly when `run_from`
//! halts, and leaves precisely the state and stack that `run_from` names.

use vstd::prelude::*;

use crate::arith::div_i128;
use crate::arith::div_i32;
use crate::arith::div_i64;
use crate::arith::rem_i128;
use crate::arith::rem_i32;
use crate::arith::rem_i64;
use crate::bytebuf::bytes_at;
use crate::bytebuf::bytes_len;
use crate::bytebuf::bytes_seq;
use crate::bytebuf::segs;
use crate::codec::be_accumulate;
use crate::codec::be_u128;
use crate::codec::be_u32;
use crate::codec::be_u64;
use crate::codec::lemma_be_nat_bound;
use crate::codec::lemma_pow256_widths;
use crate::fault::Fault;
use crate::instruction::Opcode;
use crate::selector::Bank;
use crate::selector::bank_of;
use crate::selector::index_of;
use crate::semantics::Outcome;
use crate::semantics::StepR;
use crate::semantics::VmView;
use crate::semantics::adv;
use crate::semantics::init_view;
use crate::semantics::lemma_run_from_unfold;
use crate::semantics::lemma_step_progress;
use crate::semantics::run_from;
use crate::semantics::spec_step;
use crate::semantics::step_bin;
use crate::semantics::step_cmp;
use crate::semantics::step_inc;
use crate::semantics::step_lod;
use crate::semantics::step_not;
use crate::semantics::step_pop;
use crate::semantics::step_psh;
use crate::semantics::step_shift;
use crate::semantics::wf_view;
use crate::stack::ScratchStack;
use bytes::Bytes;
use vstd::pervasive::VecAdditionalExecFns;

verus! {

/// One interpreter instance: program counter, the three register banks,
/// the comparison flags and the per-width remainder registers. The library
/// and the scratch stack are passed to `run`, not stored, so that nested
/// instances can share them.
pub struct VMScript {
    pc: usize,
    f_eq: bool,
    f_lt: bool,
    f_gt: bool,
    regs32: Vec<i32>,
    regs64: Vec<i64>,
    regs128: Vec<i128>,
    rem32: u32,
    rem64: u64,
    rem128: u128,
}

impl View for VMScript {
    type V = VmView;

    closed spec fn view(&self) -> VmView {
        VmView {
            pc: self.pc as nat,
            f_eq: self.f_eq,
            f_lt: self.f_lt,
            f_gt: self.f_gt,
            regs32: self.regs32@,
            regs64: self.regs64@,
            regs128: self.regs128@,
            rem32: self.rem32,
            rem64: self.rem64,
            rem128: self.rem128,
        }
    }
}

/// A zeroed 32-bit register bank.
fn zeroed_i32() -> (v: Vec<i32>)
    ensures
        v@ == Seq::new(64, |i: int| 0i32),
{
    let mut v: Vec<i32> = Vec::new();
    let mut i: usize = 0;
    while i < 64
        invariant
            i <= 64,
            v@.len() == i,
            forall|j: int| 0 <= j < i ==> v@[j] == 0i32,
        decreases 64 - i,
    {
        v.push(0);
        i = i + 1;
    }
    proof {
        assert(v@ =~= Seq::new(64, |i: int| 0i32));
    }
    v
}

/// A zeroed 64-bit register bank.
fn zeroed_i64() -> (v: Vec<i64>)
    ensures
        v@ == Seq::new(64, |i: int| 0i64),
{
    let mut v: Vec<i64> = Vec::new();
    let mut i: usize = 0;
    while i < 64
        invariant
            i <= 64,
            v@.len() == i,
            forall|j: int| 0 <= j < i ==> v@[j] == 0i64,
        decreases 64 - i,
    {
        v.push(0);
        i = i + 1;
    }
    proof {
        assert(v@ =~= Seq::new(64, |i: int| 0i64));
    }
    v
}

/// A zeroed 128-bit register bank.
fn zeroed_i128() -> (v: Vec<i128>)
    ensures
        v@ == Seq::new(64, |i: int| 0i128),
{
    let mut v: Vec<i128> = Vec::new();
    let mut i: usize = 0;
    while i < 64
        invariant
            i <= 64,
            v@.len() == i,
            forall|j: int| 0 <= j < i ==> v@[j] == 0i128,
        decreases 64 - i,
    {
        v.push(0);
        i = i + 1;
    }
    proof {
        assert(v@ =~= Seq::new(64, |i: int| 0i128));
    }
    v
}

impl VMScript {
    /// The register banks hold 64 registers each.
    pub open spec fn wf(&self) -> bool {
        wf_view(self@)
    }

    /// Creates a fresh instance: registers zeroed, flags clear, program
    /// counter at the start.
    pub fn new() -> (vm: VMScript)
        ensures
            vm.wf(),
            vm@ == init_view(),
    {
        let vm = VMScript {
            pc: 0,
            f_eq: false,
            f_lt: false,
            f_gt: false,
            regs32: zeroed_i32(),
            regs64: zeroed_i64(),
            regs128: zeroed_i128(),
            rem32: 0,
            rem64: 0,
            rem128: 0,
        };
        vm
    }

    /// Returns this instance to the state of a fresh one.
    pub fn reset(&mut self)
        ensures
            final(self).wf(),
            final(self)@ == init_view(),
    {
        self.pc = 0;
        self.f_eq = false;
        self.f_lt = false;
        self.f_gt = false;
        self.regs32 = zeroed_i32();
        self.regs64 = zeroed_i64();
        self.regs128 = zeroed_i128();
        self.rem32 = 0;
        self.rem64 = 0;
        self.rem128 = 0;
    }

    /// The value of register `i` of the 32-bit bank.
    pub fn reg32(&self, i: usize) -> (r: i32)
        requires
            self.wf(),
            i < 64,
        ensures
            r == self@.regs32[i as int],
    {
        self.regs32[i]
    }

    /// The value of register `i` of the 64-bit bank.
    pub fn reg64(&self, i: usize) -> (r: i64)
        requires
            self.wf(),
            i < 64,
        ensures
            r == self@.regs64[i as int],
    {
        self.regs64[i]
    }

    /// The value of register `i` of the 128-bit bank.
    pub fn reg128(&self, i: usize) -> (r: i128)
        requires
            self.wf(),
            i < 64,
        ensures
            r == self@.regs128[i as int],
    {
        self.regs128[i]
    }

    /// The remainder register of the 32-bit bank.
    pub fn rem32(&self) -> (r: u32)
        ensures
            r == self@.rem32,
    {
        self.rem32
    }

    /// The remainder register of the 64-bit bank.
    pub fn rem64(&self) -> (r: u64)
        ensures
            r == self@.rem64,
    {
        self.rem64
    }

    /// The remainder register of the 128-bit bank.
    pub fn rem128(&self) -> (r: u128)
        ensures
            r == self@.rem128,
    {
        self.rem128
    }

    /// The equality flag set by the last `CMP`.
    pub fn flag_eq(&self) -> (r: bool)
        ensures
            r == self@.f_eq,
    {
        self.f_eq
    }

    /// The less-than flag set by the last `CMP`.
    pub fn flag_lt(&self) -> (r: bool)
        ensures
            r == self@.f_lt,
    {
        self.f_lt
    }

    /// The greater-than flag set by the last `CMP`.
    pub fn flag_gt(&self) -> (r: bool)
        ensures
            r == self@.f_gt,
    {
        self.f_gt
    }

    /// Reads the next `n` bytes of the stream and advances the program
    /// counter past them; faults when fewer than `n` bytes remain.
    fn next_bytes(&mut self, prog: &Bytes, n: usize) -> (r: Result<Vec<u8>, Fault>)
        requires
            old(self).wf(),
        ensures
            final(self).wf(),
            (match r {
                Ok(v) => old(self)@.pc + n <= bytes_seq(*prog).len() && v@ == bytes_seq(
                    *prog,
                ).subrange(old(self)@.pc as int, old(self)@.pc as int + n) && final(self)@ == adv(
                    old(self)@,
                    n as nat,
                ),
                Err(f) => f == Fault::StreamOverrun && old(self)@.pc + n > bytes_seq(*prog).len()
                    && final(self)@ == old(self)@,
            }),
    {
        let len = bytes_len(prog);
        if n > len || self.pc > len - n {
            return Err(Fault::StreamOverrun);
        }
        let mut v: Vec<u8> = Vec::new();
        let mut i: usize = 0;
        while i < n
            invariant
                self.wf(),
                i <= n,
                self@.pc + n <= bytes_seq(*prog).len(),
                bytes_seq(*prog).len() <= usize::MAX,
                v@ =~= bytes_seq(*prog).subrange(self@.pc as int, self@.pc as int + i),
            decreases n - i,
        {
            v.push(bytes_at(prog, self.pc + i));
            i = i + 1;
        }
        self.pc = self.pc + n;
        Ok(v)
    }

    /// Reads one byte of the stream.
    fn next_byte(&mut self, prog: &Bytes) -> (r: Result<u8, Fault>)
        requires
            old(self).wf(),
        ensures
            final(self).wf(),
            (match r {
                Ok(b) => old(self)@.pc + 1 <= bytes_seq(*prog).len() && b == bytes_seq(
                    *prog,
                )[old(self)@.pc as int] && final(self)@ == adv(old(self)@, 1),
                Err(f) => f == Fault::StreamOverrun && old(self)@.pc + 1 > bytes_seq(*prog).len()
                    && final(self)@ == old(self)@,
            }),
    {
        match self.next_bytes(prog, 1) {
            Ok(v) => Ok(v[0]),
            Err(f) => Err(f),
        }
    }

    /// Reads a four-byte big-endian immediate.
    fn read_u32(&mut self, prog: &Bytes) -> (r: Result<u32, Fault>)
        requires
            old(self).wf(),
        ensures
            final(self).wf(),
            (match r {
                Ok(v) => old(self)@.pc + 4 <= bytes_seq(*prog).len() && v == be_u32(
                    bytes_seq(*prog).subrange(old(self)@.pc as int, old(self)@.pc as int + 4),
                ) && final(self)@ == adv(old(self)@, 4),
                Err(f) => f == Fault::StreamOverrun && old(self)@.pc + 4 > bytes_seq(*prog).len()
                    && final(self)@ == old(self)@,
            }),
    {
        match self.next_bytes(prog, 4) {
            Ok(v) => {
                let acc = be_accumulate(&v);
                proof {
                    lemma_be_nat_bound(v@);
                    lemma_pow256_widths();
                    vstd::arithmetic::power::lemma_pow_increases(256, 4, 16);
                }
                Ok(acc as u32)
            },
            Err(f) => Err(f),
        }
    }

    /// Reads an eight-byte big-endian immediate.
    fn read_u64(&mut self, prog: &Bytes) -> (r: Result<u64, Fault>)
        requires
            old(self).wf(),
        ensures
            final(self).wf(),
            (match r {
                Ok(v) => old(self)@.pc + 8 <= bytes_seq(*prog).len() && v == be_u64(
                    bytes_seq(*prog).subrange(old(self)@.pc as int, old(self)@.pc as int + 8),
                ) && final(self)@ == adv(old(self)@, 8),
                Err(f) => f == Fault::StreamOverrun && old(self)@.pc + 8 > bytes_seq(*prog).len()
                    && final(self)@ == old(self)@,
            }),
    {
        match self.next_bytes(prog, 8) {
            Ok(v) => {
                let acc = be_accumulate(&v);
                proof {
                    lemma_be_nat_bound(v@);
                    lemma_pow256_widths();
                    vstd::arithmetic::power::lemma_pow_increases(256, 8, 16);
                }
                Ok(acc as u64)
            },
            Err(f) => Err(f),
        }
    }

    /// Reads a sixteen-byte big-endian immediate.
    fn read_u128(&mut self, prog: &Bytes) -> (r: Result<u128, Fault>)
        requires
            old(self).wf(),
        ensures
            final(self).wf(),
            (match r {
                Ok(v) => old(self)@.pc + 16 <= bytes_seq(*prog).len() && v == be_u128(
                    bytes_seq(*prog).subrange(old(self)@.pc as int, old(self)@.pc as int + 16),
                ) && final(self)@ == adv(old(self)@, 16),
                Err(f) => f == Fault::StreamOverrun && old(self)@.pc + 16 > bytes_seq(*prog).len()
                    && final(self)@ == old(self)@,
            }),
    {
        match self.next_bytes(prog, 16) {
            Ok(v) => {
                let acc = be_accumulate(&v);
                proof {
                    lemma_be_nat_bound(v@);
                    lemma_pow256_widths();
                }
                Ok(acc as u128)
            },
            Err(f) => Err(f),
        }
    }

    /// Executes a `LOD` whose opcode byte has been consumed.
    fn exec_lod(&mut self, prog: &Bytes, Ghost(s0): Ghost<VmView>, Ghost(k0): Ghost<Seq<u8>>) -> (r:
        Result<(), Fault>)
        requires
            old(self).wf(),
            old(self)@ == adv(s0, 1),
        ensures
            final(self).wf(),
            (match r {
                Ok(()) => step_lod(bytes_seq(*prog), s0, k0) == StepR::Next(final(self)@, k0),
                Err(f) => step_lod(bytes_seq(*prog), s0, k0) == StepR::Fault(f),
            }),
    {
        let sel = match self.next_byte(prog) {
            Ok(b) => b,
            Err(f) => {
                return Err(f);
            },
        };
        let idx = index_of(sel) as usize;
        match bank_of(sel) {
            Err(f) => Err(f),
            Ok(Bank::Bank32) => {
                let val = match self.read_u32(prog) {
                    Ok(v) => v,
                    Err(f) => {
                        return Err(f);
                    },
                };
                self.regs32[idx] = #[verifier::truncate] (val as i32);
                Ok(())
            },
            Ok(Bank::Bank64) => {
                let val = match self.read_u64(prog) {
                    Ok(v) => v,
                    Err(f) => {
                        return Err(f);
                    },
                };
                self.regs64[idx] = #[verifier::truncate] (val as i64);
                Ok(())
            },
            Ok(Bank::Bank128) => {
                let val = match self.read_u128(prog) {
                    Ok(v) => v,
                    Err(f) => {
                        return Err(f);
                    },
                };
                self.regs128[idx] = #[verifier::truncate] (val as i128);
                Ok(())
            },
        }
    }

    /// Executes an `INC` whose opcode byte has been consumed.
    fn exec_inc(&mut self, prog: &Bytes, Ghost(s0): Ghost<VmView>, Ghost(k0): Ghost<Seq<u8>>) -> (r:
        Result<(), Fault>)
        requires
            old(self).wf(),
            old(self)@ == adv(s0, 1),
        ensures
            final(self).wf(),
            (match r {
                Ok(()) => step_inc(bytes_seq(*prog), s0, k0) == StepR::Next(final(self)@, k0),
                Err(f) => step_inc(bytes_seq(*prog), s0, k0) == StepR::Fault(f),
            }),
    {
        let sel = match self.next_byte(prog) {
            Ok(b) => b,
            Err(f) => {
                return Err(f);
            },
        };
        let idx = index_of(sel) as usize;
        match bank_of(sel) {
            Err(f) => Err(f),
            Ok(Bank::Bank32) => {
                self.regs32[idx] = self.regs32[idx].wrapping_add(1);
                Ok(())
            },
            Ok(Bank::Bank64) => {
                self.regs64[idx] = self.regs64[idx].wrapping_add(1);
                Ok(())
            },
            Ok(Bank::Bank128) => {
                self.regs128[idx] = self.regs128[idx].wrapping_add(1);
                Ok(())
            },
        }
    }

    /// Executes a `NOT` whose opcode byte has been consumed.
    fn exec_not(&mut self, prog: &Bytes, Ghost(s0): Ghost<VmView>, Ghost(k0): Ghost<Seq<u8>>) -> (r:
        Result<(), Fault>)
        requires
            old(self).wf(),
            old(self)@ == adv(s0, 1),
        ensures
            final(self).wf(),
            (match r {
                Ok(()) => step_not(bytes_seq(*prog), s0, k0) == StepR::Next(final(self)@, k0),
                Err(f) => step_not(bytes_seq(*prog), s0, k0) == StepR::Fault(f),
            }),
    {
        let sel = match self.next_byte(prog) {
            Ok(b) => b,
            Err(f) => {
                return Err(f);
            },
        };
        let idx = index_of(sel) as usize;
        match bank_of(sel) {
            Err(f) => Err(f),
            Ok(Bank::Bank32) => {
                self.regs32[idx] = !self.regs32[idx];
                Ok(())
            },
            Ok(Bank::Bank64) => {
                self.regs64[idx] = !self.regs64[idx];
                Ok(())
            },
            Ok(Bank::Bank128) => {
                self.regs128[idx] = !self.regs128[idx];
                Ok(())
            },
        }
    }

    /// Executes a two-register ALU opcode whose opcode byte has been
    /// consumed. Both operands are read from the first selector's bank.
    fn exec_bin(
        &mut self,
        op: Opcode,
        prog: &Bytes,
        Ghost(s0): Ghost<VmView>,
        Ghost(k0): Ghost<Seq<u8>>,
    ) -> (r: Result<(), Fault>)
        requires
            old(self).wf(),
            old(self)@ == adv(s0, 1),
        ensures
            final(self).wf(),
            (match r {
                Ok(()) => step_bin(op, bytes_seq(*prog), s0, k0) == StepR::Next(final(self)@, k0),
                Err(f) => step_bin(op, bytes_seq(*prog), s0, k0) == StepR::Fault(f),
            }),
    {
        let sel1 = match self.next_byte(prog) {
            Ok(b) => b,
            Err(f) => {
                return Err(f);
            },
        };
        let sel2 = match self.next_byte(prog) {
            Ok(b) => b,
            Err(f) => {
                return Err(f);
            },
        };
        let i1 = index_of(sel1) as usize;
        let i2 = index_of(sel2) as usize;
        let b1 = match bank_of(sel1) {
            Ok(b) => b,
            Err(f) => {
                return Err(f);
            },
        };
        match bank_of(sel2) {
            Ok(_) => {},
            Err(f) => {
                return Err(f);
            },
        };
        match b1 {
            Bank::Bank32 => {
                let a = self.regs32[i1];
                let b = self.regs32[i2];
                let (d, rem): (i32, u32) = match op {
                    Opcode::ADD => (a.wrapping_add(b), self.rem32),
                    Opcode::SUB => (a.wrapping_sub(b), self.rem32),
                    Opcode::MUL => (a.wrapping_mul(b), self.rem32),
                    Opcode::DIV => {
                        if b == 0 {
                            return Err(Fault::DivisionByZero);
                        }
                        (div_i32(a, b), #[verifier::truncate] (rem_i32(a, b) as u32))
                    },
                    Opcode::MOD => {
                        if b == 0 {
                            return Err(Fault::DivisionByZero);
                        }
                        (rem_i32(a, b), self.rem32)
                    },
                    Opcode::AND => (a & b, self.rem32),
                    Opcode::OR => (a | b, self.rem32),
                    Opcode::XOR => (a ^ b, self.rem32),
                    _ => {
                        return Err(Fault::UnknownOpcode);
                    },
                };
                self.regs32[i1] = d;
                self.rem32 = rem;
                Ok(())
            },
            Bank::Bank64 => {
                let a = self.regs64[i1];
                let b = self.regs64[i2];
                let (d, rem): (i64, u64) = match op {
                    Opcode::ADD => (a.wrapping_add(b), self.rem64),
                    Opcode::SUB => (a.wrapping_sub(b), self.rem64),
                    Opcode::MUL => (a.wrapping_mul(b), self.rem64),
                    Opcode::DIV => {
                        if b == 0 {
                            return Err(Fault::DivisionByZero);
                        }
                        (div_i64(a, b), #[verifier::truncate] (rem_i64(a, b) as u64))
                    },
                    Opcode::MOD => {
                        if b == 0 {
                            return Err(Fault::DivisionByZero);
                        }
                        (rem_i64(a, b), self.rem64)
                    },
                    Opcode::AND => (a & b, self.rem64),
                    Opcode::OR => (a | b, self.rem64),
                    Opcode::XOR => (a ^ b, self.rem64),
                    _ => {
                        return Err(Fault::UnknownOpcode);
                    },
                };
                self.regs64[i1] = d;
                self.rem64 = rem;
                Ok(())
            },
            Bank::Bank128 => {
                let a = self.regs128[i1];
                let b = self.regs128[i2];
                let (d, rem): (i128, u128) = match op {
                    Opcode::ADD => (a.wrapping_add(b), self.rem128),
                    Opcode::SUB => (a.wrapping_sub(b), self.rem128),
                    Opcode::MUL => (a.wrapping_mul(b), self.rem128),
                    Opcode::DIV => {
                        if b == 0 {
                            return Err(Fault::DivisionByZero);
                        }
                        (div_i128(a, b), #[verifier::truncate] (rem_i128(a, b) as u128))
                    },
                    Opcode::MOD => {
                        if b == 0 {
                            return Err(Fault::DivisionByZero);
                        }
                        (rem_i128(a, b), self.rem128)
                    },
                    Opcode::AND => (a & b, self.rem128),
                    Opcode::OR => (a | b, self.rem128),
                    Opcode::XOR => (a ^ b, self.rem128),
                    _ => {
                        return Err(Fault::UnknownOpcode);
                    },
                };
                self.regs128[i1] = d;
                self.rem128 = rem;
                Ok(())
            },
        }
    }

    /// Executes a `SHR` or `SHL` whose opcode byte has been consumed. The
    /// shift amount is taken modulo the register width.
    fn exec_shift(
        &mut self,
        op: Opcode,
        prog: &Bytes,
        Ghost(s0): Ghost<VmView>,
        Ghost(k0): Ghost<Seq<u8>>,
    ) -> (r: Result<(), Fault>)
        requires
            old(self).wf(),
            old(self)@ == adv(s0, 1),
            op is SHR || op is SHL,
        ensures
            final(self).wf(),
            (match r {
                Ok(()) => step_shift(op, bytes_seq(*prog), s0, k0) == StepR::Next(
                    final(self)@,
                    k0,
                ),
                Err(f) => step_shift(op, bytes_seq(*prog), s0, k0) == StepR::Fault(f),
            }),
    {
        let sel = match self.next_byte(prog) {
            Ok(b) => b,
            Err(f) => {
                return Err(f);
            },
        };
        let shft = match self.next_byte(prog) {
            Ok(b) => b,
            Err(f) => {
                return Err(f);
            },
        };
        let idx = index_of(sel) as usize;
        let sh = shft as u32;
        match bank_of(sel) {
            Err(f) => Err(f),
            Ok(Bank::Bank32) => {
                let v = if matches!(op, Opcode::SHR) {
                    self.regs32[idx].wrapping_shr(sh)
                } else {
                    self.regs32[idx].wrapping_shl(sh)
                };
                self.regs32[idx] = v;
                Ok(())
            },
            Ok(Bank::Bank64) => {
                let v = if matches!(op, Opcode::SHR) {
                    self.regs64[idx].wrapping_shr(sh)
                } else {
                    self.regs64[idx].wrapping_shl(sh)
                };
                self.regs64[idx] = v;
                Ok(())
            },
            Ok(Bank::Bank128) => {
                let v = if matches!(op, Opcode::SHR) {
                    self.regs128[idx].wrapping_shr(sh)
                } else {
                    self.regs128[idx].wrapping_shl(sh)
                };
                self.regs128[idx] = v;
                Ok(())
            },
        }
    }

    /// Executes a `CMP` whose opcode byte has been consumed: compares the
    /// two selected registers as signed integers of the first selector's
    /// bank width and sets exactly one flag.
    fn exec_cmp(&mut self, prog: &Bytes, Ghost(s0): Ghost<VmView>, Ghost(k0): Ghost<Seq<u8>>) -> (r:
        Result<(), Fault>)
        requires
            old(self).wf(),
            old(self)@ == adv(s0, 1),
        ensures
            final(self).wf(),
            (match r {
                Ok(()) => step_cmp(bytes_seq(*prog), s0, k0) == StepR::Next(final(self)@, k0),
                Err(f) => step_cmp(bytes_seq(*prog), s0, k0) == StepR::Fault(f),
            }),
    {
        let sel1 = match self.next_byte(prog) {
            Ok(b) => b,
            Err(f) => {
                return Err(f);
            },
        };
        let sel2 = match self.next_byte(prog) {
            Ok(b) => b,
            Err(f) => {
                return Err(f);
            },
        };
        let i1 = index_of(sel1) as usize;
        let i2 = index_of(sel2) as usize;
        let b1 = match bank_of(sel1) {
            Ok(b) => b,
            Err(f) => {
                return Err(f);
            },
        };
        match bank_of(sel2) {
            Ok(_) => {},
            Err(f) => {
                return Err(f);
            },
        };
        match b1 {
            Bank::Bank32 => {
                let a = self.regs32[i1];
                let b = self.regs32[i2];
                self.f_eq = a == b;
                self.f_gt = a > b;
                self.f_lt = a < b;
            },
            Bank::Bank64 => {
                let a = self.regs64[i1];
                let b = self.regs64[i2];
                self.f_eq = a == b;
                self.f_gt = a > b;
                self.f_lt = a < b;
            },
            Bank::Bank128 => {
                let a = self.regs128[i1];
                let b = self.regs128[i2];
                self.f_eq = a == b;
                self.f_gt = a > b;
                self.f_lt = a < b;
            },
        }
        Ok(())
    }

    /// Executes a `PSH` whose opcode byte has been consumed: serializes the
    /// selected register onto the scratch stack, least-significant byte
    /// first.
    fn exec_psh(
        &mut self,
        prog: &Bytes,
        stack: &mut ScratchStack,
        Ghost(s0): Ghost<VmView>,
    ) -> (r: Result<(), Fault>)
        requires
            old(self).wf(),
            old(stack).wf(),
            old(self)@ == adv(s0, 1),
        ensures
            final(self).wf(),
            final(stack).wf(),
            (match r {
                Ok(()) => step_psh(bytes_seq(*prog), s0, old(stack)@) == StepR::Next(
                    final(self)@,
                    final(stack)@,
                ),
                Err(f) => step_psh(bytes_seq(*prog), s0, old(stack)@) == StepR::Fault(f),
            }),
    {
        let sel = match self.next_byte(prog) {
            Ok(b) => b,
            Err(f) => {
                return Err(f);
            },
        };
        let idx = index_of(sel) as usize;
        match bank_of(sel) {
            Err(f) => Err(f),
            Ok(Bank::Bank32) => {
                stack.push_u32(#[verifier::truncate] (self.regs32[idx] as u32));
                Ok(())
            },
            Ok(Bank::Bank64) => {
                stack.push_u64(#[verifier::truncate] (self.regs64[idx] as u64));
                Ok(())
            },
            Ok(Bank::Bank128) => {
                stack.push_u128(#[verifier::truncate] (self.regs128[idx] as u128));
                Ok(())
            },
        }
    }

    /// Executes a `POP` whose opcode byte has been consumed: removes one
    /// register width of bytes from the top of the scratch stack and adds
    /// their little-endian value into the selected register, wrapping.
    fn exec_pop(
        &mut self,
        prog: &Bytes,
        stack: &mut ScratchStack,
        Ghost(s0): Ghost<VmView>,
    ) -> (r: Result<(), Fault>)
        requires
            old(self).wf(),
            old(stack).wf(),
            old(self)@ == adv(s0, 1),
        ensures
            final(self).wf(),
            final(stack).wf(),
            (match r {
                Ok(()) => step_pop(bytes_seq(*prog), s0, old(stack)@) == StepR::Next(
                    final(self)@,
                    final(stack)@,
                ),
                Err(f) => step_pop(bytes_seq(*prog), s0, old(stack)@) == StepR::Fault(f),
            }),
    {
        let sel = match self.next_byte(prog) {
            Ok(b) => b,
            Err(f) => {
                return Err(f);
            },
        };
        let idx = index_of(sel) as usize;
        match bank_of(sel) {
            Err(f) => Err(f),
            Ok(Bank::Bank32) => {
                let v = match stack.pop_u32() {
                    Some(v) => v,
                    None => {
                        return Err(Fault::StackUnderflow);
                    },
                };
                self.regs32[idx] = self.regs32[idx].wrapping_add(
                    #[verifier::truncate] (v as i32),
                );
                Ok(())
            },
            Ok(Bank::Bank64) => {
                let v = match stack.pop_u64() {
                    Some(v) => v,
                    None => {
                        return Err(Fault::StackUnderflow);
                    },
                };
                self.regs64[idx] = self.regs64[idx].wrapping_add(
                    #[verifier::truncate] (v as i64),
                );
                Ok(())
            },
            Ok(Bank::Bank128) => {
                let v = match stack.pop_u128() {
                    Some(v) => v,
                    None => {
                        return Err(Fault::StackUnderflow);
                    },
                };
                self.regs128[idx] = self.regs128[idx].wrapping_add(
                    #[verifier::truncate] (v as i128),
                );
                Ok(())
            },
        }
    }

    /// Decodes and executes one instruction of segment `base`. Returns
    /// `Ok(false)` exactly when the decoded opcode is `HLT` — then only the
    /// program counter has moved, past the opcode byte, and the stack is
    /// untouched — `Ok(true)` after every other opcode that completes, and
    /// the fault otherwise; a `CAL` runs the callee segment to completion
    /// before returning.
    #[verifier::rlimit(100)]
    fn step(&mut self, libs: &Vec<Bytes>, base: usize, stack: &mut ScratchStack) -> (r: Result<
        bool,
        Fault,
    >)
        requires
            old(self).wf(),
            old(stack).wf(),
            base < libs@.len(),
        ensures
            final(self).wf(),
            final(stack).wf(),
            (match r {
                Ok(true) => run_from(segs(libs@), base as nat, old(self)@, old(stack)@)
                    == run_from(segs(libs@), base as nat, final(self)@, final(stack)@) && old(
                    self,
                )@.pc < final(self)@.pc <= segs(libs@)[base as int].len() && (spec_step(
                    segs(libs@)[base as int],
                    old(self)@,
                    old(stack)@,
                ) is Next || spec_step(segs(libs@)[base as int], old(self)@, old(stack)@) is Call),
                Ok(false) => run_from(segs(libs@), base as nat, old(self)@, old(stack)@)
                    == Outcome::Halt(final(self)@, final(stack)@) && spec_step(
                    segs(libs@)[base as int],
                    old(self)@,
                    old(stack)@,
                ) == StepR::Halt(final(self)@) && final(self)@ == adv(old(self)@, 1)
                    && final(stack)@ == old(stack)@,
                Err(f) => run_from(segs(libs@), base as nat, old(self)@, old(stack)@)
                    == Outcome::Fault(f),
            }),
        decreases libs@.len() - base, 0int,
    {
        let ghost l = segs(libs@);
        let ghost s0 = self@;
        let ghost k0 = stack@;
        let prog = &libs[base];
        proof {
            assert(l[base as int] == bytes_seq(*prog));
            lemma_step_progress(l[base as int], s0, k0);
            lemma_run_from_unfold(l, base as nat, s0, k0);
        }
        let opb = match self.next_byte(prog) {
            Ok(b) => b,
            Err(f) => {
                return Err(f);
            },
        };
        let o = Opcode::from(opb);
        match o {
            Opcode::HLT => {
                proof {
                    assert(spec_step(l[base as int], s0, k0) == StepR::Halt(self@));
                }
                Ok(false)
            },
            Opcode::NOP => {
                proof {
                    assert(spec_step(l[base as int], s0, k0) == StepR::Next(self@, k0));
                }
                Ok(true)
            },
            Opcode::LOD => {
                match self.exec_lod(prog, Ghost(s0), Ghost(k0)) {
                    Ok(()) => Ok(true),
                    Err(f) => Err(f),
                }
            },
            Opcode::INC => {
                match self.exec_inc(prog, Ghost(s0), Ghost(k0)) {
                    Ok(()) => Ok(true),
                    Err(f) => Err(f),
                }
            },
            Opcode::ADD => {
                match self.exec_bin(Opcode::ADD, prog, Ghost(s0), Ghost(k0)) {
                    Ok(()) => Ok(true),
                    Err(f) => Err(f),
                }
            },
            Opcode::SUB => {
                match self.exec_bin(Opcode::SUB, prog, Ghost(s0), Ghost(k0)) {
                    Ok(()) => Ok(true),
                    Err(f) => Err(f),
                }
            },
            Opcode::MUL => {
                match self.exec_bin(Opcode::MUL, prog, Ghost(s0), Ghost(k0)) {
                    Ok(()) => Ok(true),
                    Err(f) => Err(f),
                }
            },
            Opcode::DIV => {
                match self.exec_bin(Opcode::DIV, prog, Ghost(s0), Ghost(k0)) {
                    Ok(()) => Ok(true),
                    Err(f) => Err(f),
                }
            },
            Opcode::MOD => {
                match self.exec_bin(Opcode::MOD, prog, Ghost(s0), Ghost(k0)) {
                    Ok(()) => Ok(true),
                    Err(f) => Err(f),
                }
            },
            Opcode::SHR => {
                match self.exec_shift(Opcode::SHR, prog, Ghost(s0), Ghost(k0)) {
                    Ok(()) => Ok(true),
                    Err(f) => Err(f),
                }
            },
            Opcode::SHL => {
                match self.exec_shift(Opcode::SHL, prog, Ghost(s0), Ghost(k0)) {
                    Ok(()) => Ok(true),
                    Err(f) => Err(f),
                }
            },
            Opcode::AND => {
                match self.exec_bin(Opcode::AND, prog, Ghost(s0), Ghost(k0)) {
                    Ok(()) => Ok(true),
                    Err(f) => Err(f),
                }
            },
            Opcode::OR => {
                match self.exec_bin(Opcode::OR, prog, Ghost(s0), Ghost(k0)) {
                    Ok(()) => Ok(true),
                    Err(f) => Err(f),
                }
            },
            Opcode::NOT => {
                match self.exec_not(prog, Ghost(s0), Ghost(k0)) {
                    Ok(()) => Ok(true),
                    Err(f) => Err(f),
                }
            },
            Opcode::XOR => {
                match self.exec_bin(Opcode::XOR, prog, Ghost(s0), Ghost(k0)) {
                    Ok(()) => Ok(true),
                    Err(f) => Err(f),
                }
            },
            Opcode::CAL => {
                let t = match self.next_byte(prog) {
                    Ok(b) => b,
                    Err(f) => {
                        return Err(f);
                    },
                };
                proof {
                    assert(spec_step(l[base as int], s0, k0) == StepR::Call(t, self@));
                }
                let slots = libs.len() - base - 1;
                if t as usize >= slots {
                    return Err(Fault::CallOutOfBounds);
                }
                let tgt = base + 1 + t as usize;
                let mut nested = VMScript::new();
                match nested.run_at(libs, tgt, stack) {
                    Ok(()) => Ok(true),
                    Err(f) => Err(f),
                }
            },
            Opcode::CMP => {
                match self.exec_cmp(prog, Ghost(s0), Ghost(k0)) {
                    Ok(()) => Ok(true),
                    Err(f) => Err(f),
                }
            },
            Opcode::PSH => {
                match self.exec_psh(prog, stack, Ghost(s0)) {
                    Ok(()) => Ok(true),
                    Err(f) => Err(f),
                }
            },
            Opcode::POP => {
                match self.exec_pop(prog, stack, Ghost(s0)) {
                    Ok(()) => Ok(true),
                    Err(f) => Err(f),
                }
            },
            Opcode::ERR => {
                proof {
                    assert(spec_step(l[base as int], s0, k0) == StepR::Fault(
                        Fault::UnknownOpcode,
                    ));
                }
                Err(Fault::UnknownOpcode)
            },
        }
    }

    /// Runs segment `base` from this instance's current state until it
    /// halts or faults, exactly as `run_from` describes.
    fn run_at(&mut self, libs: &Vec<Bytes>, base: usize, stack: &mut ScratchStack) -> (r: Result<
        (),
        Fault,
    >)
        requires
            old(self).wf(),
            old(stack).wf(),
            base < libs@.len(),
        ensures
            final(self).wf(),
            final(stack).wf(),
            (match r {
                Ok(()) => run_from(segs(libs@), base as nat, old(self)@, old(stack)@)
                    == Outcome::Halt(final(self)@, final(stack)@),
                Err(f) => run_from(segs(libs@), base as nat, old(self)@, old(stack)@)
                    == Outcome::Fault(f),
            }),
        decreases libs@.len() - base, 1int,
    {
        loop
            invariant
                self.wf(),
                stack.wf(),
                base < libs@.len(),
                run_from(segs(libs@), base as nat, old(self)@, old(stack)@) == run_from(
                    segs(libs@),
                    base as nat,
                    self@,
                    stack@,
                ),
            decreases segs(libs@)[base as int].len() + 1 - self@.pc,
        {
            match self.step(libs, base, stack) {
                Ok(true) => {},
                Ok(false) => {
                    return Ok(());
                },
                Err(f) => {
                    return Err(f);
                },
            }
        }
    }

    /// Runs the entry segment of `libs` against the shared scratch stack,
    /// from this instance's current state. Returns `Ok` exactly when the
    /// run halts cleanly; any fault aborts the whole run, nested calls
    /// included, and is returned.
    pub fn run(&mut self, libs: &Vec<Bytes>, stack: &mut ScratchStack) -> (r: Result<(), Fault>)
        requires
            old(self).wf(),
            old(stack).wf(),
            libs@.len() >= 1,
        ensures
            final(self).wf(),
            final(stack).wf(),
            (match run_from(segs(libs@), 0, old(self)@, old(stack)@) {
                Outcome::Halt(v, k) => r is Ok && final(self)@ == v && final(stack)@ == k,
                Outcome::Fault(f) => r == Err::<(), Fault>(f),
            }),
    {
        let r = self.run_at(libs, 0, stack);
        proof {
            let oc = run_from(segs(libs@), 0, old(self)@, old(stack)@);
            if r is Ok {
                assert(oc == Outcome::Halt(self@, stack@));
            } else {
                assert(oc == Outcome::Fault(r->Err_0));
            }
        }
        r
    }
}

} // verus!
