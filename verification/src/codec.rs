//! Big-endian interpretation of operand bytes.
//!
//! Multi-byte immediates are encoded big-endian: the first byte read is the
//! most significant byte of the resulting value. `be_nat` is the mathematical
//! meaning of such a byte sequence; `be_accumulate` computes it.

use vstd::prelude::*;

use vstd::arithmetic::mul::lemma_mul_inequality;
use vstd::arithmetic::power::lemma_pow0;
use vstd::arithmetic::power::lemma_pow1;
use vstd::arithmetic::power::lemma_pow_adds;
use vstd::arithmetic::power::lemma_pow_increases;
use vstd::arithmetic::power::pow;

verus! {

/// The value of a byte sequence read big-endian: the first byte is the most
/// significant.
pub open spec fn be_nat(s: Seq<u8>) -> nat
    decreases s.len(),
{
    if s.len() == 0 {
        0
    } else {
        (be_nat(s.drop_last()) * 256 + s.last()) as nat
    }
}

/// The 32-bit value of four big-endian bytes.
pub open spec fn be_u32(s: Seq<u8>) -> u32
    recommends
        s.len() == 4,
{
    be_nat(s) as u32
}

/// The 64-bit value of eight big-endian bytes.
pub open spec fn be_u64(s: Seq<u8>) -> u64
    recommends
        s.len() == 8,
{
    be_nat(s) as u64
}

/// The 128-bit value of sixteen big-endian bytes.
pub open spec fn be_u128(s: Seq<u8>) -> u128
    recommends
        s.len() == 16,
{
    be_nat(s) as u128
}

/// The powers of 256 that bound each operand width.
pub proof fn lemma_pow256_widths()
    ensures
        pow(256, 4) == 0x1_0000_0000,
        pow(256, 8) == 0x1_0000_0000_0000_0000,
        pow(256, 16) == 0x1_0000_0000_0000_0000_0000_0000_0000_0000,
{
    reveal_with_fuel(pow, 17);
    assert(pow(256, 4) == 0x1_0000_0000);
    assert(pow(256, 8) == 0x1_0000_0000_0000_0000);
    assert(pow(256, 12) == 0x1_0000_0000_0000_0000_0000_0000);
    assert(pow(256, 16) == 0x1_0000_0000_0000_0000_0000_0000_0000_0000);
}

/// A sequence of n bytes denotes a value below 256^n.
pub proof fn lemma_be_nat_bound(s: Seq<u8>)
    ensures
        be_nat(s) < pow(256, s.len()),
    decreases s.len(),
{
    if s.len() == 0 {
        lemma_pow0(256);
    } else {
        let prefix = s.drop_last();
        lemma_be_nat_bound(prefix);
        lemma_pow1(256);
        lemma_pow_adds(256, 1, prefix.len());
        assert(pow(256, s.len()) == 256 * pow(256, prefix.len()));
        lemma_mul_inequality(be_nat(prefix) as int, pow(256, prefix.len()) - 1, 256);
    }
}

/// Computes the big-endian value of at most sixteen bytes.
pub fn be_accumulate(v: &Vec<u8>) -> (r: u128)
    requires
        v@.len() <= 16,
    ensures
        r as nat == be_nat(v@),
{
    proof {
        lemma_pow256_widths();
        lemma_pow0(256);
    }
    let n = v.len();
    let mut val: u128 = 0;
    let mut i: usize = 0;
    while i < n
        invariant
            n == v@.len() <= 16,
            i <= n,
            val as nat == be_nat(v@.subrange(0, i as int)),
            (val as nat) < pow(256, i as nat),
            pow(256, 16) == 0x1_0000_0000_0000_0000_0000_0000_0000_0000,
        decreases n - i,
    {
        proof {
            let taken = v@.subrange(0, i as int + 1);
            assert(taken.drop_last() =~= v@.subrange(0, i as int));
            assert(taken.last() == v@[i as int]);
            assert(be_nat(taken) == be_nat(v@.subrange(0, i as int)) * 256 + v@[i as int]);
            lemma_pow1(256);
            lemma_pow_adds(256, 1, i as nat);
            lemma_pow_increases(256, (i + 1) as nat, 16);
            lemma_mul_inequality(val as int, pow(256, i as nat) - 1, 256);
        }
        val = val * 256 + (v[i] as u128);
        i = i + 1;
    }
    proof {
        assert(v@.subrange(0, n as int) =~= v@);
    }
    val
}

} // verus!
