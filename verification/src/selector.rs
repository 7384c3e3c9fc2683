//! Register selectors.
//!
//! A register operand is one byte: the two most-significant bits select a
//! bank (00 = 32-bit, 01 = 64-bit, 10 = 128-bit; 11 is invalid and faults),
//! and the low six bits select an index within that bank. Indices are always
//! taken modulo 64, so an out-of-range bank access is structurally
//! impossible.

use vstd::prelude::*;

use crate::fault::Fault;

verus! {

/// One of the three register banks, named by its register width in bits.
#[derive(Clone, Copy, Debug, PartialEq, Eq, Structural)]
pub enum Bank {
    Bank32,
    Bank64,
    Bank128,
}

/// The bank bits of a selector: its two most-significant bits.
pub open spec fn sel_bank(sel: u8) -> u8 {
    sel >> 6
}

/// The in-bank index of a selector: its low six bits.
pub open spec fn sel_index(sel: u8) -> u8 {
    sel & 0x3F
}

/// The bank a selector addresses, or `None` for the invalid bank bits 11.
pub open spec fn bank_spec(sel: u8) -> Option<Bank> {
    if sel_bank(sel) == 0 {
        Some(Bank::Bank32)
    } else if sel_bank(sel) == 1 {
        Some(Bank::Bank64)
    } else if sel_bank(sel) == 2 {
        Some(Bank::Bank128)
    } else {
        None
    }
}

/// Derives the bank from a selector's two most-significant bits; the bank
/// bits 11 denote no bank and fault.
pub fn bank_of(sel: u8) -> (r: Result<Bank, Fault>)
    ensures
        r == (match bank_spec(sel) {
            Some(b) => Ok::<Bank, Fault>(b),
            None => Err::<Bank, Fault>(Fault::InvalidRegister),
        }),
{
    let masked = sel >> 6;
    match masked {
        0 => Ok(Bank::Bank32),
        1 => Ok(Bank::Bank64),
        2 => Ok(Bank::Bank128),
        _ => Err(Fault::InvalidRegister),
    }
}

/// Derives the in-bank index from a selector's low six bits.
pub fn index_of(sel: u8) -> (i: u8)
    ensures
        i == sel_index(sel),
        i < 64,
{
    proof {
        assert(sel & 0x3F < 64) by (bit_vector);
    }
    sel & 0x3F
}

} // verus!
