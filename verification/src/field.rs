//! Arithmetic modulo the Mersenne prime `2^61 - 1`.
//!
//! An element of the field is a `u64` below [`MODULUS`].

use vstd::prelude::*;
use vstd::arithmetic::div_mod::{lemma_mul_mod_noop, lemma_small_mod};
use vstd::arithmetic::power::{lemma_pow0, lemma_pow1, lemma_pow_adds, pow};

verus! {

/// The field's modulus, `2^61 - 1`.
pub const MODULUS: u64 = 2305843009213693951;

/// The sum of two integers in the field.
pub open spec fn sum_mod(a: int, b: int) -> int {
    (a + b) % (MODULUS as int)
}

/// The difference of two integers in the field.
pub open spec fn difference_mod(a: int, b: int) -> int {
    (a - b) % (MODULUS as int)
}

/// The product of two integers in the field.
pub open spec fn product_mod(a: int, b: int) -> int {
    (a * b) % (MODULUS as int)
}

/// The power of an integer in the field.
pub open spec fn power_mod(a: int, exponent: nat) -> int {
    pow(a, exponent) % (MODULUS as int)
}

/// The power `MODULUS - 2` of an integer in the field. By Fermat's little
/// theorem that is the inverse of whatever has one; nothing here proves it,
/// and nothing here uses more than that the power of one is one.
pub open spec fn inverse_mod(a: int) -> int {
    power_mod(a, (MODULUS - 2) as nat)
}

/// Adds two field elements.
pub fn add_mod(a: u64, b: u64) -> (r: u64)
    requires
        a < MODULUS,
        b < MODULUS,
    ensures
        r == sum_mod(a as int, b as int),
        r < MODULUS,
{
    let s: u64 = a + b;
    if s >= MODULUS {
        s - MODULUS
    } else {
        s
    }
}

/// Subtracts one field element from another.
pub fn sub_mod(a: u64, b: u64) -> (r: u64)
    requires
        a < MODULUS,
        b < MODULUS,
    ensures
        r == difference_mod(a as int, b as int),
        r < MODULUS,
{
    if a >= b {
        a - b
    } else {
        a + (MODULUS - b)
    }
}

/// Multiplies two field elements.
pub fn mul_mod(a: u64, b: u64) -> (r: u64)
    requires
        a < MODULUS,
        b < MODULUS,
    ensures
        r == product_mod(a as int, b as int),
        r < MODULUS,
{
    assert(a * b < 0x1_0000_0000_0000_0000_0000_0000_0000_0000) by (nonlinear_arith)
        requires
            a < 0x2000_0000_0000_0000,
            b < 0x2000_0000_0000_0000,
    ;
    let wide: u128 = (a as u128) * (b as u128);
    (wide % (MODULUS as u128)) as u64
}

/// Raises a field element to a power, by squaring.
pub fn pow_mod(a: u64, exponent: u64) -> (r: u64)
    requires
        a < MODULUS,
    ensures
        r == power_mod(a as int, exponent as nat),
        r < MODULUS,
    decreases exponent,
{
    if exponent == 0 {
        proof {
            lemma_pow0(a as int);
        }
        1
    } else {
        let half = exponent / 2;
        let root = pow_mod(a, half);
        let square = mul_mod(root, root);
        proof {
            lemma_pow_adds(a as int, half as nat, half as nat);
            lemma_mul_mod_noop(
                pow(a as int, half as nat),
                pow(a as int, half as nat),
                MODULUS as int,
            );
        }
        if exponent % 2 == 1 {
            proof {
                lemma_pow1(a as int);
                lemma_pow_adds(a as int, (2 * half) as nat, 1);
                lemma_mul_mod_noop(pow(a as int, (2 * half) as nat), a as int, MODULUS as int);
                lemma_small_mod(a as nat, MODULUS as nat);
            }
            mul_mod(square, a)
        } else {
            square
        }
    }
}

/// Raises a field element to the power `MODULUS - 2`, which inverts it.
pub fn inv_mod(a: u64) -> (r: u64)
    requires
        a < MODULUS,
    ensures
        r == inverse_mod(a as int),
        r < MODULUS,
{
    pow_mod(a, MODULUS - 2)
}

} // verus!
