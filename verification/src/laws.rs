//! Laws of the instruction set, stated and proved against the
//! specification semantics.

use vstd::prelude::*;

use crate::arith::lemma_trunc_div_bounds;
use crate::arith::lemma_trunc_div_mod;
use crate::arith::lemma_trunc_rem_bounds;
use crate::arith::wdiv_i128;
use crate::arith::wdiv_i32;
use crate::arith::wdiv_i64;
use crate::arith::wrem_i128;
use crate::arith::wrem_i32;
use crate::arith::wrem_i64;
use crate::codec::be_u128;
use crate::codec::be_u32;
use crate::codec::be_u64;
use crate::fault::Fault;
use crate::instruction::Opcode;
use crate::instruction::opcode_spec;
use crate::selector::Bank;
use crate::selector::bank_spec;
use crate::selector::sel_bank;
use crate::selector::sel_index;
use crate::semantics::Outcome;
use crate::semantics::StepR;
use crate::semantics::VmView;
use crate::semantics::adv;
use crate::semantics::bin128;
use crate::semantics::bin32;
use crate::semantics::bin64;
use crate::semantics::init_view;
use crate::semantics::lemma_run_from_unfold;
use crate::semantics::run_from;
use crate::semantics::spec_step;
use crate::semantics::wf_view;
use vstd::bytes::lemma_auto_spec_u128_to_from_le_bytes;
use vstd::bytes::lemma_auto_spec_u32_to_from_le_bytes;
use vstd::bytes::lemma_auto_spec_u64_to_from_le_bytes;
use vstd::bytes::spec_u128_from_le_bytes;
use vstd::bytes::spec_u128_to_le_bytes;
use vstd::bytes::spec_u32_from_le_bytes;
use vstd::bytes::spec_u32_to_le_bytes;
use vstd::bytes::spec_u64_from_le_bytes;
use vstd::bytes::spec_u64_to_le_bytes;

verus! {

/// Whether an opcode's first operand byte is a register selector.
pub open spec fn takes_selector(op: Opcode) -> bool {
    match op {
        Opcode::HLT | Opcode::NOP | Opcode::CAL | Opcode::ERR => false,
        _ => true,
    }
}

/// How many operand bytes an opcode reads before it derives its first
/// selector's bank: one selector, plus a second selector or a shift amount
/// for the three-byte forms.
pub open spec fn selector_window(op: Opcode) -> nat {
    match op {
        Opcode::ADD | Opcode::SUB | Opcode::MUL | Opcode::DIV | Opcode::MOD | Opcode::AND
            | Opcode::OR | Opcode::XOR | Opcode::CMP | Opcode::SHR | Opcode::SHL => 2,
        _ => 1,
    }
}

/// Bank and index derivation is total and deterministic on every selector
/// byte: the bank bits never exceed 3, the index is always below 64, bank
/// bits 00/01/10 name the 32-, 64- and 128-bit banks in that order, and a
/// bank is denoted exactly when the bank bits are not 11 (which always
/// faults: see `lemma_invalid_bank_faults`).
pub proof fn lemma_selector_totality()
    ensures
        forall|sel: u8| #![auto] sel_bank(sel) <= 3,
        forall|sel: u8| #![auto] sel_index(sel) < 64,
        forall|sel: u8| #![auto]
            bank_spec(sel) == (if sel_bank(sel) == 0 {
                Some(Bank::Bank32)
            } else if sel_bank(sel) == 1 {
                Some(Bank::Bank64)
            } else if sel_bank(sel) == 2 {
                Some(Bank::Bank128)
            } else {
                None::<Bank>
            }),
        forall|sel: u8| #![auto] (bank_spec(sel) is Some <==> sel_bank(sel) != 3),
{
    assert forall|sel: u8| sel_bank(sel) <= 3 && sel_index(sel) < 64 by {
        assert((sel >> 6) <= 3 && (sel & 0x3F) < 64) by (bit_vector);
    }
}

/// A selector whose bank bits are 11 always faults: any register-consuming
/// instruction whose first selector has bank bits 11, and whose operand
/// bytes are all in the stream, steps to `InvalidRegister`.
pub proof fn lemma_invalid_bank_faults(prog: Seq<u8>, s: VmView, stk: Seq<u8>)
    requires
        s.pc + 1 <= prog.len(),
        takes_selector(opcode_spec(prog[s.pc as int])),
        s.pc + 1 + selector_window(opcode_spec(prog[s.pc as int])) <= prog.len(),
        sel_bank(prog[s.pc as int + 1]) == 3,
    ensures
        spec_step(prog, s, stk) == StepR::Fault(Fault::InvalidRegister),
{
}

/// `LOD` stores exactly the big-endian value of its immediate bytes: a read
/// of the loaded register straight after the step returns that value, for
/// all three widths.
pub proof fn lemma_lod_big_endian(prog: Seq<u8>, s: VmView, stk: Seq<u8>)
    requires
        wf_view(s),
        s.pc + 2 <= prog.len(),
        opcode_spec(prog[s.pc as int]) == Opcode::LOD,
    ensures
        bank_spec(prog[s.pc as int + 1]) == Some(Bank::Bank32) && s.pc + 6 <= prog.len()
            ==> spec_step(prog, s, stk) == StepR::Next(
            VmView {
                regs32: s.regs32.update(
                    sel_index(prog[s.pc as int + 1]) as int,
                    be_u32(prog.subrange(s.pc as int + 2, s.pc as int + 6)) as i32,
                ),
                ..adv(s, 6)
            },
            stk,
        ),
        bank_spec(prog[s.pc as int + 1]) == Some(Bank::Bank64) && s.pc + 10 <= prog.len()
            ==> spec_step(prog, s, stk) == StepR::Next(
            VmView {
                regs64: s.regs64.update(
                    sel_index(prog[s.pc as int + 1]) as int,
                    be_u64(prog.subrange(s.pc as int + 2, s.pc as int + 10)) as i64,
                ),
                ..adv(s, 10)
            },
            stk,
        ),
        bank_spec(prog[s.pc as int + 1]) == Some(Bank::Bank128) && s.pc + 18 <= prog.len()
            ==> spec_step(prog, s, stk) == StepR::Next(
            VmView {
                regs128: s.regs128.update(
                    sel_index(prog[s.pc as int + 1]) as int,
                    be_u128(prog.subrange(s.pc as int + 2, s.pc as int + 18)) as i128,
                ),
                ..adv(s, 18)
            },
            stk,
        ),
{
}

/// Serializing a 32-bit register onto the stack and deserializing the top
/// of the stack returns the pushed value bit for bit, and leaves the stack
/// below it untouched.
pub proof fn lemma_push_pop_roundtrip_32(stk: Seq<u8>, r: i32)
    ensures
        ({
            let stk2 = stk + spec_u32_to_le_bytes(r as u32);
            &&& stk2.len() == stk.len() + 4
            &&& spec_u32_from_le_bytes(stk2.skip(stk2.len() - 4)) as i32 == r
            &&& stk2.take(stk2.len() - 4) == stk
        }),
{
    lemma_auto_spec_u32_to_from_le_bytes();
    let stk2 = stk + spec_u32_to_le_bytes(r as u32);
    assert(stk2.skip(stk2.len() - 4) =~= spec_u32_to_le_bytes(r as u32));
    assert(stk2.take(stk2.len() - 4) =~= stk);
    assert(((r as u32) as i32) == r) by (bit_vector);
}

/// Serializing a 64-bit register onto the stack and deserializing the top
/// of the stack returns the pushed value bit for bit.
pub proof fn lemma_push_pop_roundtrip_64(stk: Seq<u8>, r: i64)
    ensures
        ({
            let stk2 = stk + spec_u64_to_le_bytes(r as u64);
            &&& stk2.len() == stk.len() + 8
            &&& spec_u64_from_le_bytes(stk2.skip(stk2.len() - 8)) as i64 == r
            &&& stk2.take(stk2.len() - 8) == stk
        }),
{
    lemma_auto_spec_u64_to_from_le_bytes();
    let stk2 = stk + spec_u64_to_le_bytes(r as u64);
    assert(stk2.skip(stk2.len() - 8) =~= spec_u64_to_le_bytes(r as u64));
    assert(stk2.take(stk2.len() - 8) =~= stk);
    assert(((r as u64) as i64) == r) by (bit_vector);
}

/// Serializing a 128-bit register onto the stack and deserializing the top
/// of the stack returns the pushed value bit for bit.
pub proof fn lemma_push_pop_roundtrip_128(stk: Seq<u8>, r: i128)
    ensures
        ({
            let stk2 = stk + spec_u128_to_le_bytes(r as u128);
            &&& stk2.len() == stk.len() + 16
            &&& spec_u128_from_le_bytes(stk2.skip(stk2.len() - 16)) as i128 == r
            &&& stk2.take(stk2.len() - 16) == stk
        }),
{
    lemma_auto_spec_u128_to_from_le_bytes();
    let stk2 = stk + spec_u128_to_le_bytes(r as u128);
    assert(stk2.skip(stk2.len() - 16) =~= spec_u128_to_le_bytes(r as u128));
    assert(stk2.take(stk2.len() - 16) =~= stk);
    assert(((r as u128) as i128) == r) by (bit_vector);
}

/// A zero divisor faults `DIV` and `MOD`; for any other divisor both
/// succeed, `MOD` writes exactly the remainder that `DIV` stores, and
/// quotient and remainder reassemble the dividend:
/// `quotient * src + remainder == dividend` (for the one overflowing pair,
/// the most negative value divided by minus one, the quotient wraps and the
/// identity is excluded).
pub proof fn lemma_div_mod_agree_32(a: i32, b: i32, rem: u32)
    ensures
        bin32(Opcode::DIV, a, 0, rem) == Err::<(i32, u32), Fault>(Fault::DivisionByZero),
        bin32(Opcode::MOD, a, 0, rem) == Err::<(i32, u32), Fault>(Fault::DivisionByZero),
        b != 0 ==> bin32(Opcode::DIV, a, b, rem) == Ok::<(i32, u32), Fault>(
            (wdiv_i32(a, b), wrem_i32(a, b) as u32),
        ),
        b != 0 ==> bin32(Opcode::MOD, a, b, rem) == Ok::<(i32, u32), Fault>((wrem_i32(a, b), rem)),
        b != 0 && !(a == i32::MIN && b == -1) ==> (wdiv_i32(a, b) as int) * b + wrem_i32(a, b)
            == a,
{
    if b != 0 && !(a == i32::MIN && b == -1) {
        lemma_trunc_div_mod(a as int, b as int);
        lemma_trunc_div_bounds(a as int, b as int, 0x8000_0000);
        lemma_trunc_rem_bounds(a as int, b as int, 0x8000_0000);
    }
}

/// The 64-bit divisor law: see `lemma_div_mod_agree_32`.
pub proof fn lemma_div_mod_agree_64(a: i64, b: i64, rem: u64)
    ensures
        bin64(Opcode::DIV, a, 0, rem) == Err::<(i64, u64), Fault>(Fault::DivisionByZero),
        bin64(Opcode::MOD, a, 0, rem) == Err::<(i64, u64), Fault>(Fault::DivisionByZero),
        b != 0 ==> bin64(Opcode::DIV, a, b, rem) == Ok::<(i64, u64), Fault>(
            (wdiv_i64(a, b), wrem_i64(a, b) as u64),
        ),
        b != 0 ==> bin64(Opcode::MOD, a, b, rem) == Ok::<(i64, u64), Fault>((wrem_i64(a, b), rem)),
        b != 0 && !(a == i64::MIN && b == -1) ==> (wdiv_i64(a, b) as int) * b + wrem_i64(a, b)
            == a,
{
    if b != 0 && !(a == i64::MIN && b == -1) {
        lemma_trunc_div_mod(a as int, b as int);
        lemma_trunc_div_bounds(a as int, b as int, 0x8000_0000_0000_0000);
        lemma_trunc_rem_bounds(a as int, b as int, 0x8000_0000_0000_0000);
    }
}

/// The 128-bit divisor law: see `lemma_div_mod_agree_32`.
pub proof fn lemma_div_mod_agree_128(a: i128, b: i128, rem: u128)
    ensures
        bin128(Opcode::DIV, a, 0, rem) == Err::<(i128, u128), Fault>(Fault::DivisionByZero),
        bin128(Opcode::MOD, a, 0, rem) == Err::<(i128, u128), Fault>(Fault::DivisionByZero),
        b != 0 ==> bin128(Opcode::DIV, a, b, rem) == Ok::<(i128, u128), Fault>(
            (wdiv_i128(a, b), wrem_i128(a, b) as u128),
        ),
        b != 0 ==> bin128(Opcode::MOD, a, b, rem) == Ok::<(i128, u128), Fault>(
            (wrem_i128(a, b), rem),
        ),
        b != 0 && !(a == i128::MIN && b == -1) ==> (wdiv_i128(a, b) as int) * b + wrem_i128(a, b)
            == a,
{
    if b != 0 && !(a == i128::MIN && b == -1) {
        lemma_trunc_div_mod(a as int, b as int);
        lemma_trunc_div_bounds(a as int, b as int, 0x8000_0000_0000_0000_0000_0000_0000_0000);
        lemma_trunc_rem_bounds(a as int, b as int, 0x8000_0000_0000_0000_0000_0000_0000_0000);
    }
}

/// A `PSH` followed by a `POP` of the same width restores the pushed
/// register's value bit for bit and leaves the stack as it was. `POP` adds
/// the popped value into its destination, so the destination is required
/// to hold zero beforehand (a nonzero destination accumulates instead).
pub proof fn lemma_psh_pop_restores_32(prog: Seq<u8>, s: VmView, stk: Seq<u8>)
    requires
        wf_view(s),
        s.pc + 4 <= prog.len(),
        opcode_spec(prog[s.pc as int]) == Opcode::PSH,
        bank_spec(prog[s.pc as int + 1]) == Some(Bank::Bank32),
        opcode_spec(prog[s.pc as int + 2]) == Opcode::POP,
        bank_spec(prog[s.pc as int + 3]) == Some(Bank::Bank32),
        s.regs32[sel_index(prog[s.pc as int + 3]) as int] == 0,
    ensures
        (match spec_step(prog, s, stk) {
            StepR::Next(s1, stk1) => match spec_step(prog, s1, stk1) {
                StepR::Next(s2, stk2) => s2.regs32[sel_index(prog[s.pc as int + 3]) as int]
                    == s.regs32[sel_index(prog[s.pc as int + 1]) as int] && stk2 == stk,
                _ => false,
            },
            _ => false,
        }),
{
    let a = prog[s.pc as int + 1];
    let b = prog[s.pc as int + 3];
    assert((a & 0x3F) < 64 && (b & 0x3F) < 64) by (bit_vector);
    let src = s.regs32[sel_index(prog[s.pc as int + 1]) as int];
    let stk1 = stk + spec_u32_to_le_bytes(src as u32);
    lemma_auto_spec_u32_to_from_le_bytes();
    assert(stk1.skip(stk1.len() - 4) =~= spec_u32_to_le_bytes(src as u32));
    assert(stk1.take(stk1.len() - 4) =~= stk);
    assert(((src as u32) as i32) == src) by (bit_vector);
}

/// The 64-bit form of `lemma_psh_pop_restores_32`.
pub proof fn lemma_psh_pop_restores_64(prog: Seq<u8>, s: VmView, stk: Seq<u8>)
    requires
        wf_view(s),
        s.pc + 4 <= prog.len(),
        opcode_spec(prog[s.pc as int]) == Opcode::PSH,
        bank_spec(prog[s.pc as int + 1]) == Some(Bank::Bank64),
        opcode_spec(prog[s.pc as int + 2]) == Opcode::POP,
        bank_spec(prog[s.pc as int + 3]) == Some(Bank::Bank64),
        s.regs64[sel_index(prog[s.pc as int + 3]) as int] == 0,
    ensures
        (match spec_step(prog, s, stk) {
            StepR::Next(s1, stk1) => match spec_step(prog, s1, stk1) {
                StepR::Next(s2, stk2) => s2.regs64[sel_index(prog[s.pc as int + 3]) as int]
                    == s.regs64[sel_index(prog[s.pc as int + 1]) as int] && stk2 == stk,
                _ => false,
            },
            _ => false,
        }),
{
    let a = prog[s.pc as int + 1];
    let b = prog[s.pc as int + 3];
    assert((a & 0x3F) < 64 && (b & 0x3F) < 64) by (bit_vector);
    let src = s.regs64[sel_index(prog[s.pc as int + 1]) as int];
    let stk1 = stk + spec_u64_to_le_bytes(src as u64);
    lemma_auto_spec_u64_to_from_le_bytes();
    assert(stk1.skip(stk1.len() - 8) =~= spec_u64_to_le_bytes(src as u64));
    assert(stk1.take(stk1.len() - 8) =~= stk);
    assert(((src as u64) as i64) == src) by (bit_vector);
}

/// The 128-bit form of `lemma_psh_pop_restores_32`.
pub proof fn lemma_psh_pop_restores_128(prog: Seq<u8>, s: VmView, stk: Seq<u8>)
    requires
        wf_view(s),
        s.pc + 4 <= prog.len(),
        opcode_spec(prog[s.pc as int]) == Opcode::PSH,
        bank_spec(prog[s.pc as int + 1]) == Some(Bank::Bank128),
        opcode_spec(prog[s.pc as int + 2]) == Opcode::POP,
        bank_spec(prog[s.pc as int + 3]) == Some(Bank::Bank128),
        s.regs128[sel_index(prog[s.pc as int + 3]) as int] == 0,
    ensures
        (match spec_step(prog, s, stk) {
            StepR::Next(s1, stk1) => match spec_step(prog, s1, stk1) {
                StepR::Next(s2, stk2) => s2.regs128[sel_index(prog[s.pc as int + 3]) as int]
                    == s.regs128[sel_index(prog[s.pc as int + 1]) as int] && stk2 == stk,
                _ => false,
            },
            _ => false,
        }),
{
    let a = prog[s.pc as int + 1];
    let b = prog[s.pc as int + 3];
    assert((a & 0x3F) < 64 && (b & 0x3F) < 64) by (bit_vector);
    let src = s.regs128[sel_index(prog[s.pc as int + 1]) as int];
    let stk1 = stk + spec_u128_to_le_bytes(src as u128);
    lemma_auto_spec_u128_to_from_le_bytes();
    assert(stk1.skip(stk1.len() - 16) =~= spec_u128_to_le_bytes(src as u128));
    assert(stk1.take(stk1.len() - 16) =~= stk);
    assert(((src as u128) as i128) == src) by (bit_vector);
}

/// A `DIV` or `MOD` whose source register holds zero faults the step with
/// `DivisionByZero`, whichever bank the first selector names.
pub proof fn lemma_div_by_zero_faults(prog: Seq<u8>, s: VmView, stk: Seq<u8>)
    requires
        s.pc + 3 <= prog.len(),
        opcode_spec(prog[s.pc as int]) == Opcode::DIV || opcode_spec(prog[s.pc as int])
            == Opcode::MOD,
        bank_spec(prog[s.pc as int + 1]) is Some,
        bank_spec(prog[s.pc as int + 2]) is Some,
        (match bank_spec(prog[s.pc as int + 1]) {
            Some(Bank::Bank32) => s.regs32[sel_index(prog[s.pc as int + 2]) as int] == 0,
            Some(Bank::Bank64) => s.regs64[sel_index(prog[s.pc as int + 2]) as int] == 0,
            _ => s.regs128[sel_index(prog[s.pc as int + 2]) as int] == 0,
        }),
    ensures
        spec_step(prog, s, stk) == StepR::Fault(Fault::DivisionByZero),
{
}

/// A `CMP` whose operands are in the stream and whose selectors are valid
/// sets exactly one of the three flags, consistent with signed comparison
/// at the first operand's bank width, and leaves the stack alone.
pub proof fn lemma_cmp_trichotomy(prog: Seq<u8>, s: VmView, stk: Seq<u8>)
    requires
        s.pc + 3 <= prog.len(),
        opcode_spec(prog[s.pc as int]) == Opcode::CMP,
        bank_spec(prog[s.pc as int + 1]) is Some,
        bank_spec(prog[s.pc as int + 2]) is Some,
    ensures
        (match spec_step(prog, s, stk) {
            StepR::Next(s2, stk2) => {
                let (a, b): (int, int) = match bank_spec(prog[s.pc as int + 1]) {
                    Some(Bank::Bank32) => (
                        s.regs32[sel_index(prog[s.pc as int + 1]) as int] as int,
                        s.regs32[sel_index(prog[s.pc as int + 2]) as int] as int,
                    ),
                    Some(Bank::Bank64) => (
                        s.regs64[sel_index(prog[s.pc as int + 1]) as int] as int,
                        s.regs64[sel_index(prog[s.pc as int + 2]) as int] as int,
                    ),
                    _ => (
                        s.regs128[sel_index(prog[s.pc as int + 1]) as int] as int,
                        s.regs128[sel_index(prog[s.pc as int + 2]) as int] as int,
                    ),
                };
                &&& stk2 == stk
                &&& (s2.f_eq <==> a == b)
                &&& (s2.f_gt <==> a > b)
                &&& (s2.f_lt <==> a < b)
                &&& (s2.f_eq || s2.f_gt || s2.f_lt)
                &&& !(s2.f_eq && s2.f_gt)
                &&& !(s2.f_eq && s2.f_lt)
                &&& !(s2.f_gt && s2.f_lt)
            },
            _ => false,
        }),
{
}

/// A `CAL` resolves its operand `t` to segment `base + t + 1`. When that
/// index is not a library index the run faults with `CallOutOfBounds`;
/// otherwise the callee segment runs in a fresh instance over the same
/// stack, and the caller resumes after it halts.
pub proof fn lemma_call_resolution(libs: Seq<Seq<u8>>, base: nat, s: VmView, stk: Seq<u8>)
    requires
        base < libs.len(),
        s.pc + 2 <= libs[base as int].len(),
        opcode_spec(libs[base as int][s.pc as int]) == Opcode::CAL,
    ensures
        ({
            let t = libs[base as int][s.pc as int + 1];
            &&& (base + t + 1 >= libs.len() ==> run_from(libs, base, s, stk) == Outcome::Fault(
                Fault::CallOutOfBounds,
            ))
            &&& (base + t + 1 < libs.len() ==> run_from(libs, base, s, stk) == (match run_from(
                libs,
                (base + t + 1) as nat,
                init_view(),
                stk,
            ) {
                Outcome::Fault(f) => Outcome::Fault(f),
                Outcome::Halt(v, stk2) => run_from(libs, base, adv(s, 2), stk2),
            }))
        }),
{
    lemma_run_from_unfold(libs, base, s, stk);
}

} // verus!
