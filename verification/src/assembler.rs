//! The assembler's data model and binary encoder.
//!
//! An assembly instruction is a mnemonic token with up to three operand
//! tokens; `to_bytes` emits exactly the binary layout the interpreter
//! decodes: one opcode byte, one byte per register operand, and one
//! immediate sized by the destination register's bank — 4, 8 or 16
//! big-endian bytes, the integer operand sign-extended to that width.
//! The `lemma_assembled_immediate_decodes*` lemmas tie the encoder to the
//! decoder: the interpreter reads back exactly the value that was
//! assembled, at every width.

use vstd::prelude::*;

use crate::codec::be_nat;
use crate::codec::lemma_be_nat_bound;
use crate::codec::lemma_pow256_widths;
use crate::codec::be_u128;
use crate::codec::be_u32;
use crate::codec::be_u64;
use crate::instruction::Opcode;
use crate::instruction::opcode_spec;
use crate::selector::Bank;
use crate::selector::bank_spec;

verus! {

/// One token of assembly text: a mnemonic, a register, or an integer
/// immediate.
#[derive(Clone, Copy, Debug, PartialEq, Eq, Structural)]
pub enum Token {
    Op { code: Opcode },
    Reg { reg_num: u8 },
    Number { value: i32 },
}

/// One parsed assembly instruction: a mnemonic and up to three operands.
#[derive(Clone, Copy, Debug, PartialEq)]
pub struct AsmInstruction {
    pub opcode: Token,
    pub operand1: Option<Token>,
    pub operand2: Option<Token>,
    pub operand3: Option<Token>,
}

/// The opcode byte of each mnemonic. `ERR` stands for no instruction and
/// gets the first byte outside the set.
pub open spec fn spec_opcode_byte(code: Opcode) -> u8 {
    match code {
        Opcode::HLT => 0x0,
        Opcode::NOP => 0x1,
        Opcode::LOD => 0x2,
        Opcode::INC => 0x3,
        Opcode::ADD => 0x4,
        Opcode::SUB => 0x5,
        Opcode::MUL => 0x6,
        Opcode::DIV => 0x7,
        Opcode::MOD => 0x8,
        Opcode::SHR => 0x9,
        Opcode::SHL => 0xA,
        Opcode::AND => 0xB,
        Opcode::OR => 0xC,
        Opcode::NOT => 0xD,
        Opcode::XOR => 0xE,
        Opcode::CAL => 0xF,
        Opcode::CMP => 0x10,
        Opcode::PSH => 0x11,
        Opcode::POP => 0x12,
        Opcode::ERR => 0x13,
    }
}

/// Encoding then decoding an opcode byte yields the mnemonic back.
pub proof fn lemma_opcode_byte_roundtrip(code: Opcode)
    requires
        !(code is ERR),
    ensures
        opcode_spec(spec_opcode_byte(code)) == code,
{
}

/// The four big-endian bytes of a 32-bit value: most significant first.
pub open spec fn be_bytes_of_u32(v: u32) -> Seq<u8> {
    seq![(v >> 24) as u8, (v >> 16) as u8, (v >> 8) as u8, v as u8]
}

/// The eight big-endian bytes of a 64-bit value.
pub open spec fn be_bytes_of_u64(v: u64) -> Seq<u8> {
    seq![
        (v >> 56) as u8,
        (v >> 48) as u8,
        (v >> 40) as u8,
        (v >> 32) as u8,
        (v >> 24) as u8,
        (v >> 16) as u8,
        (v >> 8) as u8,
        v as u8,
    ]
}

/// The sixteen big-endian bytes of a 128-bit value.
pub open spec fn be_bytes_of_u128(v: u128) -> Seq<u8> {
    be_bytes_of_u64((v >> 64) as u64) + be_bytes_of_u64(v as u64)
}

/// The big-endian value of two concatenated byte runs: the first run's
/// value shifted past the second run, plus the second run's value.
proof fn lemma_be_nat_concat(a: Seq<u8>, b: Seq<u8>)
    ensures
        be_nat(a + b) == be_nat(a) * vstd::arithmetic::power::pow(256, b.len()) + be_nat(b),
    decreases b.len(),
{
    if b.len() == 0 {
        assert(a + b =~= a);
        vstd::arithmetic::power::lemma_pow0(256);
    } else {
        let bp = b.drop_last();
        lemma_be_nat_concat(a, bp);
        assert((a + b).drop_last() =~= a + bp);
        assert(be_nat(a + b) == be_nat(a + bp) * 256 + b.last());
        vstd::arithmetic::power::lemma_pow1(256);
        vstd::arithmetic::power::lemma_pow_adds(256, bp.len(), 1);
        assert((be_nat(a) * vstd::arithmetic::power::pow(256, bp.len()) + be_nat(bp)) * 256
            == be_nat(a) * (vstd::arithmetic::power::pow(256, bp.len()) * 256) + be_nat(bp) * 256)
            by (nonlinear_arith);
    }
}

/// The interpreter's big-endian decoder reads back exactly the 32-bit
/// value the assembler encoded.
pub proof fn lemma_assembled_immediate_decodes(v: u32)
    ensures
        be_bytes_of_u32(v).len() == 4,
        be_u32(be_bytes_of_u32(v)) == v,
{
    let s = be_bytes_of_u32(v);
    let b0 = (v >> 24) as u8;
    let b1 = (v >> 16) as u8;
    let b2 = (v >> 8) as u8;
    let b3 = v as u8;
    reveal_with_fuel(be_nat, 6);
    assert(seq![b0].drop_last() =~= Seq::<u8>::empty());
    assert(be_nat(Seq::<u8>::empty()) == 0);
    assert(seq![b0].last() == b0);
    assert(be_nat(seq![b0]) == b0);
    assert(seq![b0, b1].drop_last() =~= seq![b0]);
    assert(be_nat(seq![b0, b1]) == b0 * 256 + b1);
    assert(seq![b0, b1, b2].drop_last() =~= seq![b0, b1]);
    assert(be_nat(seq![b0, b1, b2]) == (b0 * 256 + b1) * 256 + b2);
    assert(s.drop_last() =~= seq![b0, b1, b2]);
    assert(be_nat(s) == ((b0 * 256 + b1) * 256 + b2) * 256 + b3);
    assert((b0 as u32) * 0x100_0000 + (b1 as u32) * 0x1_0000 + (b2 as u32) * 0x100 + (b3 as u32)
        == v) by (bit_vector)
        requires
            b0 == (v >> 24) as u8,
            b1 == (v >> 16) as u8,
            b2 == (v >> 8) as u8,
            b3 == v as u8,
    ;
}

/// The interpreter's big-endian decoder reads back exactly the 64-bit
/// value the assembler encoded.
pub proof fn lemma_assembled_immediate_decodes_64(v: u64)
    ensures
        be_bytes_of_u64(v).len() == 8,
        be_u64(be_bytes_of_u64(v)) == v,
{
    let hi = (v >> 32) as u32;
    let lo = v as u32;
    lemma_assembled_immediate_decodes(hi);
    lemma_assembled_immediate_decodes(lo);
    assert(be_bytes_of_u64(v) =~= be_bytes_of_u32(hi) + be_bytes_of_u32(lo)) by {
        assert(((v >> 56) as u8 == (hi >> 24) as u8) && ((v >> 48) as u8 == (hi >> 16) as u8) && ((
        v >> 40) as u8 == (hi >> 8) as u8) && ((v >> 32) as u8 == hi as u8) && ((v >> 24) as u8 == (
        lo >> 24) as u8) && ((v >> 16) as u8 == (lo >> 16) as u8) && ((v >> 8) as u8 == (lo
            >> 8) as u8) && (v as u8 == lo as u8)) by (bit_vector)
            requires
                hi == (v >> 32) as u32,
                lo == v as u32,
        ;
    }
    lemma_be_nat_concat(be_bytes_of_u32(hi), be_bytes_of_u32(lo));
    lemma_pow256_widths();
    lemma_be_nat_bound(be_bytes_of_u32(hi));
    lemma_be_nat_bound(be_bytes_of_u32(lo));
    vstd::arithmetic::power::lemma_pow_increases(256, 4, 16);
    assert((hi as u64) * 0x1_0000_0000 + (lo as u64) == v) by (bit_vector)
        requires
            hi == (v >> 32) as u32,
            lo == v as u32,
    ;
}

/// The interpreter's big-endian decoder reads back exactly the 128-bit
/// value the assembler encoded.
pub proof fn lemma_assembled_immediate_decodes_128(v: u128)
    ensures
        be_bytes_of_u128(v).len() == 16,
        be_u128(be_bytes_of_u128(v)) == v,
{
    let hi = (v >> 64) as u64;
    let lo = v as u64;
    lemma_assembled_immediate_decodes_64(hi);
    lemma_assembled_immediate_decodes_64(lo);
    lemma_be_nat_concat(be_bytes_of_u64(hi), be_bytes_of_u64(lo));
    lemma_pow256_widths();
    lemma_be_nat_bound(be_bytes_of_u64(hi));
    lemma_be_nat_bound(be_bytes_of_u64(lo));
    assert((hi as u128) * 0x1_0000_0000_0000_0000 + (lo as u128) == v) by (bit_vector)
        requires
            hi == (v >> 64) as u64,
            lo == v as u64,
    ;
}

/// An assembled immediate, sign-extended to its destination bank's width,
/// decodes back to the assembled integer at that width.
pub proof fn lemma_sign_extended_immediate(value: i32)
    ensures
        be_u32(be_bytes_imm(value, 4)) as i32 == value,
        be_u64(be_bytes_imm(value, 8)) as i64 == value as i64,
        be_u128(be_bytes_imm(value, 16)) as i128 == value as i128,
{
    lemma_assembled_immediate_decodes(value as u32);
    lemma_assembled_immediate_decodes_64(value as u64);
    lemma_assembled_immediate_decodes_128(value as u128);
    assert(((value as u32) as i32 == value) && ((value as u64) as i64 == value as i64) && ((
    value as u128) as i128 == value as i128)) by (bit_vector);
}

/// An integer operand sign-extended to `w` big-endian bytes; every width
/// other than 8 and 16 encodes at the 32-bit width.
pub open spec fn be_bytes_imm(value: i32, w: nat) -> Seq<u8> {
    if w == 8 {
        be_bytes_of_u64(value as u64)
    } else if w == 16 {
        be_bytes_of_u128(value as u128)
    } else {
        be_bytes_of_u32(value as u32)
    }
}

/// The bytes one operand token contributes to the instruction: the raw
/// selector byte for a register, `w` big-endian bytes for an immediate.
/// A mnemonic is not a legal operand and contributes nothing.
pub open spec fn spec_operand_bytes(t: Token, w: nat) -> Seq<u8> {
    match t {
        Token::Op { .. } => Seq::empty(),
        Token::Reg { reg_num } => seq![reg_num],
        Token::Number { value } => be_bytes_imm(value, w),
    }
}

/// The bytes of an optional operand.
pub open spec fn spec_opt_operand_bytes(t: Option<Token>, w: nat) -> Seq<u8> {
    match t {
        None => Seq::empty(),
        Some(t) => spec_operand_bytes(t, w),
    }
}

/// The register number a token names, if it is a register token.
pub open spec fn reg_sel_of(t: Option<Token>) -> Option<u8> {
    match t {
        Some(Token::Reg { reg_num }) => Some(reg_num),
        _ => None,
    }
}

impl AsmInstruction {
    /// A well-formed instruction: the mnemonic slot holds a mnemonic and no
    /// operand slot does.
    pub open spec fn wf(&self) -> bool {
        &&& self.opcode is Op
        &&& !(self.operand1 is Some && self.operand1->0 is Op)
        &&& !(self.operand2 is Some && self.operand2->0 is Op)
        &&& !(self.operand3 is Some && self.operand3->0 is Op)
    }

    /// The destination selector: the first register operand.
    pub open spec fn dst_sel(&self) -> Option<u8> {
        match reg_sel_of(self.operand1) {
            Some(sel) => Some(sel),
            None => match reg_sel_of(self.operand2) {
                Some(sel) => Some(sel),
                None => reg_sel_of(self.operand3),
            },
        }
    }

    /// The width in bytes of this instruction's immediates, fixed by the
    /// destination selector's bank. An instruction with no register
    /// operand, or whose selector has the invalid bank bits (which the
    /// interpreter rejects at the selector itself), encodes immediates at
    /// the 32-bit width.
    pub open spec fn imm_width(&self) -> nat {
        match self.dst_sel() {
            Some(sel) => match bank_spec(sel) {
                Some(Bank::Bank64) => 8,
                Some(Bank::Bank128) => 16,
                _ => 4,
            },
            None => 4,
        }
    }

    /// The binary encoding of this instruction: the opcode byte followed by
    /// each operand's bytes, immediates sized by the destination bank.
    pub open spec fn spec_bytes(&self) -> Seq<u8> {
        seq![spec_opcode_byte(self.opcode->code)] + spec_opt_operand_bytes(
            self.operand1,
            self.imm_width(),
        ) + spec_opt_operand_bytes(self.operand2, self.imm_width()) + spec_opt_operand_bytes(
            self.operand3,
            self.imm_width(),
        )
    }

    /// Computes the immediate width from the destination selector's bank.
    fn imm_width_exec(&self) -> (w: usize)
        ensures
            w == self.imm_width(),
    {
        let sel: Option<u8> = match &self.operand1 {
            Some(Token::Reg { reg_num }) => Some(*reg_num),
            _ => match &self.operand2 {
                Some(Token::Reg { reg_num }) => Some(*reg_num),
                _ => match &self.operand3 {
                    Some(Token::Reg { reg_num }) => Some(*reg_num),
                    _ => None,
                },
            },
        };
        match sel {
            Some(s) => {
                let bits = s >> 6;
                if bits == 1 {
                    8
                } else if bits == 2 {
                    16
                } else {
                    4
                }
            },
            None => 4,
        }
    }

    /// Appends one operand's bytes to the instruction being emitted,
    /// sign-extending an integer operand to the immediate width `w`.
    fn extract_operand(t: &Token, w: usize, results: &mut Vec<u8>)
        requires
            !(*t is Op),
        ensures
            final(results)@ == old(results)@ + spec_operand_bytes(*t, w as nat),
    {
        match t {
            Token::Reg { reg_num } => {
                results.push(*reg_num);
                proof {
                    assert(results@ =~= old(results)@ + spec_operand_bytes(*t, w as nat));
                }
            },
            Token::Number { value } => {
                if w == 8 {
                    let converted = #[verifier::truncate] (*value as u64);
                    results.push(#[verifier::truncate] ((converted >> 56) as u8));
                    results.push(#[verifier::truncate] ((converted >> 48) as u8));
                    results.push(#[verifier::truncate] ((converted >> 40) as u8));
                    results.push(#[verifier::truncate] ((converted >> 32) as u8));
                    results.push(#[verifier::truncate] ((converted >> 24) as u8));
                    results.push(#[verifier::truncate] ((converted >> 16) as u8));
                    results.push(#[verifier::truncate] ((converted >> 8) as u8));
                    results.push(#[verifier::truncate] (converted as u8));
                } else if w == 16 {
                    let converted = #[verifier::truncate] (*value as u128);
                    let hi = #[verifier::truncate] ((converted >> 64) as u64);
                    let lo = #[verifier::truncate] (converted as u64);
                    results.push(#[verifier::truncate] ((hi >> 56) as u8));
                    results.push(#[verifier::truncate] ((hi >> 48) as u8));
                    results.push(#[verifier::truncate] ((hi >> 40) as u8));
                    results.push(#[verifier::truncate] ((hi >> 32) as u8));
                    results.push(#[verifier::truncate] ((hi >> 24) as u8));
                    results.push(#[verifier::truncate] ((hi >> 16) as u8));
                    results.push(#[verifier::truncate] ((hi >> 8) as u8));
                    results.push(#[verifier::truncate] (hi as u8));
                    results.push(#[verifier::truncate] ((lo >> 56) as u8));
                    results.push(#[verifier::truncate] ((lo >> 48) as u8));
                    results.push(#[verifier::truncate] ((lo >> 40) as u8));
                    results.push(#[verifier::truncate] ((lo >> 32) as u8));
                    results.push(#[verifier::truncate] ((lo >> 24) as u8));
                    results.push(#[verifier::truncate] ((lo >> 16) as u8));
                    results.push(#[verifier::truncate] ((lo >> 8) as u8));
                    results.push(#[verifier::truncate] (lo as u8));
                } else {
                    let converted = #[verifier::truncate] (*value as u32);
                    results.push(#[verifier::truncate] ((converted >> 24) as u8));
                    results.push(#[verifier::truncate] ((converted >> 16) as u8));
                    results.push(#[verifier::truncate] ((converted >> 8) as u8));
                    results.push(#[verifier::truncate] (converted as u8));
                }
                proof {
                    assert(results@ =~= old(results)@ + spec_operand_bytes(*t, w as nat));
                }
            },
            Token::Op { .. } => {
                proof {
                    assert(results@ =~= old(results)@ + spec_operand_bytes(*t, w as nat));
                }
            },
        }
    }

    /// Emits the instruction's binary encoding: the opcode byte, then each
    /// present operand's bytes in order, with immediates sized by the
    /// destination selector's bank.
    pub fn to_bytes(self) -> (r: Vec<u8>)
        requires
            self.wf(),
        ensures
            r@ == self.spec_bytes(),
    {
        let w = self.imm_width_exec();
        let mut results: Vec<u8> = Vec::new();
        match self.opcode {
            Token::Op { code } => {
                let b: u8 = match code {
                    Opcode::HLT => 0x0,
                    Opcode::NOP => 0x1,
                    Opcode::LOD => 0x2,
                    Opcode::INC => 0x3,
                    Opcode::ADD => 0x4,
                    Opcode::SUB => 0x5,
                    Opcode::MUL => 0x6,
                    Opcode::DIV => 0x7,
                    Opcode::MOD => 0x8,
                    Opcode::SHR => 0x9,
                    Opcode::SHL => 0xA,
                    Opcode::AND => 0xB,
                    Opcode::OR => 0xC,
                    Opcode::NOT => 0xD,
                    Opcode::XOR => 0xE,
                    Opcode::CAL => 0xF,
                    Opcode::CMP => 0x10,
                    Opcode::PSH => 0x11,
                    Opcode::POP => 0x12,
                    Opcode::ERR => 0x13,
                };
                results.push(b);
            },
            _ => {
                proof {
                    assert(false);
                }
            },
        }
        match &self.operand1 {
            Some(t) => Self::extract_operand(t, w, &mut results),
            None => {},
        }
        match &self.operand2 {
            Some(t) => Self::extract_operand(t, w, &mut results),
            None => {},
        }
        match &self.operand3 {
            Some(t) => Self::extract_operand(t, w, &mut results),
            None => {},
        }
        proof {
            assert(results@ =~= self.spec_bytes());
        }
        results
    }
}

/// A parsed assembly program: its instructions in order.
#[derive(Debug, PartialEq)]
pub struct Script {
    pub instructions: Vec<AsmInstruction>,
}

} // verus!
