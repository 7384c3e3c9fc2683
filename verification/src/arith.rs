//! Division and modulo with the interpreter's wrapping policy.
//!
//! Register division truncates toward zero, as machine division does, and the
//! one overflowing case (the most negative value divided by minus one) wraps
//! back to the most negative value with remainder zero. A zero divisor is
//! rejected by the callers before these helpers run.

use vstd::prelude::*;

use vstd::arithmetic::div_mod::lemma_div_basics_2;
use vstd::arithmetic::div_mod::lemma_div_is_ordered_by_denominator;
use vstd::arithmetic::div_mod::lemma_div_is_strictly_smaller;
use vstd::arithmetic::div_mod::lemma_div_pos_is_pos;
use vstd::arithmetic::div_mod::lemma_fundamental_div_mod;
use vstd::arithmetic::div_mod::lemma_mod_division_less_than_divisor;

verus! {

/// Integer division truncated toward zero.
pub open spec fn trunc_div(x: int, d: int) -> int
    recommends
        d != 0,
{
    if x == 0 {
        0
    } else if x > 0 && d > 0 {
        x / d
    } else if x < 0 && d < 0 {
        (x * -1) / (d * -1)
    } else if x < 0 {
        ((x * -1) / d) * -1
    } else {
        (x / (d * -1)) * -1
    }
}

/// The remainder of division truncated toward zero; its sign follows the
/// dividend.
pub open spec fn trunc_rem(x: int, d: int) -> int
    recommends
        d != 0,
{
    if x == 0 {
        0
    } else if x > 0 && d > 0 {
        x % d
    } else if x < 0 && d < 0 {
        ((x * -1) % (d * -1)) * -1
    } else if x < 0 {
        ((x * -1) % d) * -1
    } else {
        x % (d * -1)
    }
}

/// Quotient and remainder reassemble the dividend:
/// `trunc_div(x, d) * d + trunc_rem(x, d) == x`.
pub proof fn lemma_trunc_div_mod(x: int, d: int)
    requires
        d != 0,
    ensures
        trunc_div(x, d) * d + trunc_rem(x, d) == x,
{
    let q = trunc_div(x, d);
    let r = trunc_rem(x, d);
    if x == 0 {
        assert(q * d == 0) by (nonlinear_arith)
            requires
                q == 0,
        ;
    } else if x > 0 && d > 0 {
        lemma_fundamental_div_mod(x, d);
        assert((x / d) * d == d * (x / d)) by (nonlinear_arith);
    } else if x < 0 && d < 0 {
        lemma_fundamental_div_mod(x * -1, d * -1);
        assert(q * d + r == x) by (nonlinear_arith)
            requires
                q == (x * -1) / (d * -1),
                r == ((x * -1) % (d * -1)) * -1,
                x * -1 == (d * -1) * ((x * -1) / (d * -1)) + (x * -1) % (d * -1),
        ;
    } else if x < 0 {
        lemma_fundamental_div_mod(x * -1, d);
        assert(q * d + r == x) by (nonlinear_arith)
            requires
                q == ((x * -1) / d) * -1,
                r == ((x * -1) % d) * -1,
                x * -1 == d * ((x * -1) / d) + (x * -1) % d,
        ;
    } else {
        lemma_fundamental_div_mod(x, d * -1);
        assert(q * d + r == x) by (nonlinear_arith)
            requires
                q == (x / (d * -1)) * -1,
                r == x % (d * -1),
                x == (d * -1) * (x / (d * -1)) + x % (d * -1),
        ;
    }
}

/// For operands of a width whose values span `[-bnd, bnd)`, the truncated
/// quotient stays in `[-bnd, bnd]` and reaches `bnd` only for the one
/// overflowing pair `(-bnd, -1)`.
pub proof fn lemma_trunc_div_bounds(x: int, d: int, bnd: int)
    requires
        d != 0,
        bnd > 0,
        -bnd <= x < bnd,
        -bnd <= d < bnd,
    ensures
        -bnd <= trunc_div(x, d) <= bnd,
        trunc_div(x, d) == bnd ==> x == -bnd && d == -1,
{
    if x != 0 {
        let xx = if x < 0 {
            x * -1
        } else {
            x
        };
        let dd = if d < 0 {
            d * -1
        } else {
            d
        };
        let q0 = xx / dd;
        lemma_div_pos_is_pos(xx, dd);
        lemma_div_is_ordered_by_denominator(xx, 1, dd);
        lemma_div_basics_2(xx);
        assert(0 <= q0 <= xx);
        if dd >= 2 {
            lemma_div_is_strictly_smaller(xx, dd);
        }
        assert(trunc_div(x, d) == q0 || trunc_div(x, d) == q0 * -1);
    }
}

/// For a divisor of a width whose values span `[-bnd, bnd)`, the truncated
/// remainder stays strictly inside `(-bnd, bnd)`.
pub proof fn lemma_trunc_rem_bounds(x: int, d: int, bnd: int)
    requires
        d != 0,
        bnd > 0,
        -bnd <= d < bnd,
    ensures
        -bnd < trunc_rem(x, d) < bnd,
{
    if x != 0 {
        let xx = if x < 0 {
            x * -1
        } else {
            x
        };
        let dd = if d < 0 {
            d * -1
        } else {
            d
        };
        lemma_mod_division_less_than_divisor(xx, dd);
        if x > 0 && d > 0 {
            lemma_mod_division_less_than_divisor(x, d);
        }
    }
}

/// 32-bit truncated division; the overflowing pair wraps to `i32::MIN`.
pub open spec fn wdiv_i32(a: i32, b: i32) -> i32
    recommends
        b != 0,
{
    if a == i32::MIN && b == -1 {
        i32::MIN
    } else {
        trunc_div(a as int, b as int) as i32
    }
}

/// 32-bit truncated remainder; zero for the overflowing pair.
pub open spec fn wrem_i32(a: i32, b: i32) -> i32
    recommends
        b != 0,
{
    trunc_rem(a as int, b as int) as i32
}

/// 64-bit truncated division; the overflowing pair wraps to `i64::MIN`.
pub open spec fn wdiv_i64(a: i64, b: i64) -> i64
    recommends
        b != 0,
{
    if a == i64::MIN && b == -1 {
        i64::MIN
    } else {
        trunc_div(a as int, b as int) as i64
    }
}

/// 64-bit truncated remainder; zero for the overflowing pair.
pub open spec fn wrem_i64(a: i64, b: i64) -> i64
    recommends
        b != 0,
{
    trunc_rem(a as int, b as int) as i64
}

/// 128-bit truncated division; the overflowing pair wraps to `i128::MIN`.
pub open spec fn wdiv_i128(a: i128, b: i128) -> i128
    recommends
        b != 0,
{
    if a == i128::MIN && b == -1 {
        i128::MIN
    } else {
        trunc_div(a as int, b as int) as i128
    }
}

/// 128-bit truncated remainder; zero for the overflowing pair.
pub open spec fn wrem_i128(a: i128, b: i128) -> i128
    recommends
        b != 0,
{
    trunc_rem(a as int, b as int) as i128
}

/// Computes the 32-bit wrapping quotient.
pub fn div_i32(a: i32, b: i32) -> (q: i32)
    requires
        b != 0,
    ensures
        q == wdiv_i32(a, b),
{
    proof {
        lemma_trunc_div_bounds(a as int, b as int, 0x8000_0000);
    }
    match a.checked_div(b) {
        Some(q) => q,
        None => i32::MIN,
    }
}

/// Computes the 32-bit wrapping remainder.
pub fn rem_i32(a: i32, b: i32) -> (r: i32)
    requires
        b != 0,
    ensures
        r == wrem_i32(a, b),
{
    proof {
        lemma_trunc_rem_bounds(a as int, b as int, 0x8000_0000);
        if a == i32::MIN && b == -1 {
            lemma_mod_division_less_than_divisor(a as int * -1, 1);
        }
    }
    match a.checked_rem(b) {
        Some(r) => r,
        None => 0,
    }
}

/// Computes the 64-bit wrapping quotient.
pub fn div_i64(a: i64, b: i64) -> (q: i64)
    requires
        b != 0,
    ensures
        q == wdiv_i64(a, b),
{
    proof {
        lemma_trunc_div_bounds(a as int, b as int, 0x8000_0000_0000_0000);
    }
    match a.checked_div(b) {
        Some(q) => q,
        None => i64::MIN,
    }
}

/// Computes the 64-bit wrapping remainder.
pub fn rem_i64(a: i64, b: i64) -> (r: i64)
    requires
        b != 0,
    ensures
        r == wrem_i64(a, b),
{
    proof {
        lemma_trunc_rem_bounds(a as int, b as int, 0x8000_0000_0000_0000);
        if a == i64::MIN && b == -1 {
            lemma_mod_division_less_than_divisor(a as int * -1, 1);
        }
    }
    match a.checked_rem(b) {
        Some(r) => r,
        None => 0,
    }
}

/// Computes the 128-bit wrapping quotient.
pub fn div_i128(a: i128, b: i128) -> (q: i128)
    requires
        b != 0,
    ensures
        q == wdiv_i128(a, b),
{
    proof {
        lemma_trunc_div_bounds(a as int, b as int, 0x8000_0000_0000_0000_0000_0000_0000_0000);
    }
    match a.checked_div(b) {
        Some(q) => q,
        None => i128::MIN,
    }
}

/// Computes the 128-bit wrapping remainder.
pub fn rem_i128(a: i128, b: i128) -> (r: i128)
    requires
        b != 0,
    ensures
        r == wrem_i128(a, b),
{
    proof {
        lemma_trunc_rem_bounds(a as int, b as int, 0x8000_0000_0000_0000_0000_0000_0000_0000);
        if a == i128::MIN && b == -1 {
            lemma_mod_division_less_than_divisor(a as int * -1, 1);
        }
    }
    match a.checked_rem(b) {
        Some(r) => r,
        None => 0,
    }
}

} // verus!
