//! The instruction set: opcode bytes and their mnemonics.
//!
//! One byte of the instruction stream is an opcode; the bytes that follow it
//! are its operands (register selectors, shift amounts, big-endian
//! immediates, or a call target). Every byte outside the table decodes to
//! `ERR`, which the interpreter rejects with an explicit fault.

use vstd::prelude::*;

verus! {

/// An opcode mnemonic. The variant order fixes the opcode byte of each
/// mnemonic (`HLT` = 0, `NOP` = 1, ... `POP` = 0x12); `ERR` stands for every
/// byte outside the instruction set.
#[derive(Clone, Copy, Debug, PartialEq, Eq, Structural)]
pub enum Opcode {
    HLT,
    NOP,
    LOD,
    INC,
    ADD,
    SUB,
    MUL,
    DIV,
    MOD,
    SHR,
    SHL,
    AND,
    OR,
    NOT,
    XOR,
    CAL,
    CMP,
    PSH,
    POP,
    ERR,
}

/// The opcode denoted by one byte of the instruction stream.
pub open spec fn opcode_spec(v: u8) -> Opcode {
    if v == 0x0 {
        Opcode::HLT
    } else if v == 0x1 {
        Opcode::NOP
    } else if v == 0x2 {
        Opcode::LOD
    } else if v == 0x3 {
        Opcode::INC
    } else if v == 0x4 {
        Opcode::ADD
    } else if v == 0x5 {
        Opcode::SUB
    } else if v == 0x6 {
        Opcode::MUL
    } else if v == 0x7 {
        Opcode::DIV
    } else if v == 0x8 {
        Opcode::MOD
    } else if v == 0x9 {
        Opcode::SHR
    } else if v == 0xA {
        Opcode::SHL
    } else if v == 0xB {
        Opcode::AND
    } else if v == 0xC {
        Opcode::OR
    } else if v == 0xD {
        Opcode::NOT
    } else if v == 0xE {
        Opcode::XOR
    } else if v == 0xF {
        Opcode::CAL
    } else if v == 0x10 {
        Opcode::CMP
    } else if v == 0x11 {
        Opcode::PSH
    } else if v == 0x12 {
        Opcode::POP
    } else {
        Opcode::ERR
    }
}

impl core::convert::From<u8> for Opcode {
    fn from(v: u8) -> (r: Opcode) {
        match v {
            0x0 => Opcode::HLT,
            0x1 => Opcode::NOP,
            0x2 => Opcode::LOD,
            0x3 => Opcode::INC,
            0x4 => Opcode::ADD,
            0x5 => Opcode::SUB,
            0x6 => Opcode::MUL,
            0x7 => Opcode::DIV,
            0x8 => Opcode::MOD,
            0x9 => Opcode::SHR,
            0xA => Opcode::SHL,
            0xB => Opcode::AND,
            0xC => Opcode::OR,
            0xD => Opcode::NOT,
            0xE => Opcode::XOR,
            0xF => Opcode::CAL,
            0x10 => Opcode::CMP,
            0x11 => Opcode::PSH,
            0x12 => Opcode::POP,
            _ => Opcode::ERR,
        }
    }
}

impl vstd::std_specs::convert::FromSpecImpl<u8> for Opcode {
    open spec fn obeys_from_spec() -> bool {
        true
    }

    open spec fn from_spec(v: u8) -> Opcode {
        opcode_spec(v)
    }
}

} // verus!
