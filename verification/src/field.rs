//! Baby Bear field arithmetic on canonical `u32` values.
//!
//! A field element is represented by its canonical residue, a `u32` strictly
//! below the prime `2^31 - 2^27 + 1`. Addition, subtraction and
//! multiplication are ordinary modular arithmetic and are verified here;
//! inversion is delegated to the field backend.

use vstd::prelude::*;

verus! {

/// The Baby Bear prime, `2^31 - 2^27 + 1`.
pub const FIELD_MODULUS: u32 = 2013265921;

/// A `u32` is a canonical field element when it is a reduced residue.
pub open spec fn is_canonical(x: u32) -> bool {
    x < FIELD_MODULUS
}

/// Field addition on mathematical integers.
pub open spec fn fadd(a: int, b: int) -> int {
    (a + b) % (FIELD_MODULUS as int)
}

/// Field subtraction on mathematical integers.
pub open spec fn fsub(a: int, b: int) -> int {
    (a - b) % (FIELD_MODULUS as int)
}

/// Field multiplication on mathematical integers.
pub open spec fn fmul(a: int, b: int) -> int {
    (a * b) % (FIELD_MODULUS as int)
}

/// The canonical residue of an integer.
pub open spec fn freduce(a: int) -> int {
    a % (FIELD_MODULUS as int)
}

/// Field addition of values whose plain sum stays below the modulus is
/// plain addition.
pub proof fn lemma_fadd_small(a: int, b: int)
    requires
        0 <= a,
        0 <= b,
        a + b < FIELD_MODULUS,
    ensures
        fadd(a, b) == a + b,
{
    vstd::arithmetic::div_mod::lemma_small_mod((a + b) as nat, FIELD_MODULUS as nat);
}

/// Multiplying by zero gives zero.
pub proof fn lemma_fmul_zero(x: int)
    ensures
        fmul(0, x) == 0,
        fmul(x, 0) == 0,
{
}

/// Multiplying a canonical value by one leaves it unchanged.
pub proof fn lemma_fmul_one(x: int)
    requires
        0 <= x < FIELD_MODULUS,
    ensures
        fmul(1, x) == x,
        fmul(x, 1) == x,
{
    vstd::arithmetic::div_mod::lemma_small_mod(x as nat, FIELD_MODULUS as nat);
}

/// Subtracting a value from itself gives zero.
pub proof fn lemma_fsub_self(a: int)
    ensures
        fsub(a, a) == 0,
{
}

/// Reduction commutes with addition.
pub proof fn lemma_freduce_add(a: int, b: int)
    requires
        0 <= a,
        0 <= b,
    ensures
        fadd(freduce(a), freduce(b)) == freduce(a + b),
{
    vstd::arithmetic::div_mod::lemma_add_mod_noop(a, b, FIELD_MODULUS as int);
}

/// Subtraction of distinct canonical values is nonzero in the field.
pub proof fn lemma_fsub_nonzero(a: int, b: int)
    requires
        0 <= a < FIELD_MODULUS,
        0 <= b < FIELD_MODULUS,
        a != b,
    ensures
        fsub(a, b) != 0,
{
    if a > b {
        vstd::arithmetic::div_mod::lemma_small_mod((a - b) as nat, FIELD_MODULUS as nat);
    } else {
        vstd::arithmetic::div_mod::lemma_mod_add_multiples_vanish(a - b, FIELD_MODULUS as int);
        vstd::arithmetic::div_mod::lemma_small_mod(
            (a - b + FIELD_MODULUS) as nat,
            FIELD_MODULUS as nat,
        );
    }
}

/// Multiplication in the field is commutative.
pub proof fn lemma_fmul_comm(a: int, b: int)
    ensures
        fmul(a, b) == fmul(b, a),
{
    vstd::arithmetic::mul::lemma_mul_is_commutative(a, b);
}

/// Add two canonical field elements.
pub fn fp_add(a: u32, b: u32) -> (r: u32)
    requires
        is_canonical(a),
        is_canonical(b),
    ensures
        is_canonical(r),
        r == fadd(a as int, b as int),
{
    let s: u64 = a as u64 + b as u64;
    if s >= FIELD_MODULUS as u64 {
        proof {
            vstd::arithmetic::div_mod::lemma_mod_sub_multiples_vanish(
                a as int + b as int,
                FIELD_MODULUS as int,
            );
            vstd::arithmetic::div_mod::lemma_small_mod(
                (a + b - FIELD_MODULUS) as nat,
                FIELD_MODULUS as nat,
            );
        }
        (s - FIELD_MODULUS as u64) as u32
    } else {
        proof {
            vstd::arithmetic::div_mod::lemma_small_mod((a + b) as nat, FIELD_MODULUS as nat);
        }
        s as u32
    }
}

/// Subtract one canonical field element from another.
pub fn fp_sub(a: u32, b: u32) -> (r: u32)
    requires
        is_canonical(a),
        is_canonical(b),
    ensures
        is_canonical(r),
        r == fsub(a as int, b as int),
{
    let s: u64 = a as u64 + FIELD_MODULUS as u64 - b as u64;
    proof {
        vstd::arithmetic::div_mod::lemma_mod_sub_multiples_vanish(
            a as int - b as int,
            FIELD_MODULUS as int,
        );
        if s >= FIELD_MODULUS as u64 {
            vstd::arithmetic::div_mod::lemma_mod_sub_multiples_vanish(
                a as int + FIELD_MODULUS as int - b as int,
                FIELD_MODULUS as int,
            );
            vstd::arithmetic::div_mod::lemma_small_mod(
                (a + FIELD_MODULUS - b - FIELD_MODULUS) as nat,
                FIELD_MODULUS as nat,
            );
        } else {
            vstd::arithmetic::div_mod::lemma_small_mod(
                (a + FIELD_MODULUS - b) as nat,
                FIELD_MODULUS as nat,
            );
        }
    }
    if s >= FIELD_MODULUS as u64 {
        (s - FIELD_MODULUS as u64) as u32
    } else {
        s as u32
    }
}

/// Multiply two canonical field elements.
pub fn fp_mul(a: u32, b: u32) -> (r: u32)
    requires
        is_canonical(a),
        is_canonical(b),
    ensures
        is_canonical(r),
        r == fmul(a as int, b as int),
{
    proof {
        lemma_mul_bound(a as int, b as int);
    }
    let p: u64 = (a as u64 * b as u64) % (FIELD_MODULUS as u64);
    p as u32
}

/// The product of two 31-bit values fits in 62 bits.
proof fn lemma_mul_bound(a: int, b: int)
    by (nonlinear_arith)
    requires
        0 <= a < 0x8000_0000,
        0 <= b < 0x8000_0000,
    ensures
        0 <= a * b < 0x4000_0000_0000_0000,
{
}

/// Reduce an arbitrary `u32` to its canonical residue.
pub fn fp_from_u32(x: u32) -> (r: u32)
    ensures
        is_canonical(r),
        r == freduce(x as int),
{
    x % FIELD_MODULUS
}

/// Reduce an arbitrary `u64` to its canonical residue.
pub fn fp_from_u64(x: u64) -> (r: u32)
    ensures
        is_canonical(r),
        r == freduce(x as int),
{
    (x % (FIELD_MODULUS as u64)) as u32
}

/// Invert a nonzero canonical field element.
///
/// Relies on `p3_field::Field::inverse` for `p3_baby_bear::BabyBear`: it
/// returns the multiplicative inverse of a nonzero element (and panics on
/// zero, which the precondition rules out). `BabyBear::new` reduces the
/// argument into the field and `p3_field::PrimeField32::as_canonical_u32`
/// reads the result back as a reduced residue.
#[verifier::external_body]
pub(crate) fn fp_inverse(x: u32) -> (r: u32)
    requires
        0 < x,
        is_canonical(x),
    ensures
        is_canonical(r),
        fmul(r as int, x as int) == 1,
{
    let elem = p3_baby_bear::BabyBear::new(x);
    let inv = p3_field::Field::inverse(&elem);
    p3_field::PrimeField32::as_canonical_u32(&inv)
}

/// Encode a boolean as the field element 0 or 1.
pub fn fp_from_bool(x: bool) -> (r: u32)
    ensures
        r == (if x { 1int } else { 0int }),
{
    if x {
        1
    } else {
        0
    }
}

} // verus!
