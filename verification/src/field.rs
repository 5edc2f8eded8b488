//! Arithmetic in GF(2^8), the AES field, with modulus
//! x^8 + x^4 + x^3 + x + 1 (0x11b).
//!
//! A byte stands for the polynomial over GF(2) whose coefficient of x^i is bit
//! `i`. Addition is XOR.

use crate::bits::lemma_xor_bytes;
use vstd::prelude::*;

verus! {

/// `a * x` in GF(2^8): a shift, reduced by the modulus when x^8 appears.
pub open spec fn xtime(a: u8) -> u8 {
    (a << 1) ^ (if a >> 7 == 1 {
        0x1b
    } else {
        0u8
    })
}

/// `term` if the coefficient of x^i in `b` is one, and zero otherwise.
pub open spec fn select(b: u8, i: u8, term: u8) -> u8 {
    if (b >> i) & 1 == 1 {
        term
    } else {
        0
    }
}

/// The product of two elements of GF(2^8): the sum of `a * x^i` over the terms
/// x^i of `b`.
#[verifier::opaque]
pub open spec fn gf_mul(a: u8, b: u8) -> u8 {
    let a1 = xtime(a);
    let a2 = xtime(a1);
    let a3 = xtime(a2);
    let a4 = xtime(a3);
    let a5 = xtime(a4);
    let a6 = xtime(a5);
    let a7 = xtime(a6);
    select(b, 0, a) ^ select(b, 1, a1) ^ select(b, 2, a2) ^ select(b, 3, a3) ^ select(b, 4, a4)
        ^ select(b, 5, a5) ^ select(b, 6, a6) ^ select(b, 7, a7)
}

/// The multiplicative inverse in GF(2^8); zero, which has none, maps to zero.
pub open spec fn gf_inv(a: u8) -> u8 {
    if a == 0 {
        0
    } else {
        choose|b: u8| gf_mul(a, b) == 1
    }
}

/// The product of two polynomials over GF(2) whose degrees add up to at most 15.
pub open spec fn poly_mul(a: u16, b: u8) -> u16 {
    (if b & 0x01 != 0 { a } else { 0u16 }) ^ (if b & 0x02 != 0 { a << 1 } else { 0u16 }) ^ (
    if b & 0x04 != 0 { a << 2 } else { 0u16 }) ^ (if b & 0x08 != 0 { a << 3 } else { 0u16 }) ^ (
    if b & 0x10 != 0 { a << 4 } else { 0u16 }) ^ (if b & 0x20 != 0 { a << 5 } else { 0u16 }) ^ (
    if b & 0x40 != 0 { a << 6 } else { 0u16 }) ^ (if b & 0x80 != 0 { a << 7 } else { 0u16 })
}

// ---------------------------------------------------------------------------
// Multiplication.
// ---------------------------------------------------------------------------

/// One step of the shift-and-add multiplication: the running sum takes the
/// lowest term of `y`, and `x` is multiplied by x while `y` is divided by it.
proof fn lemma_gmul_step(p: u8, x: u8, y: u8, i: u8)
    by (bit_vector)
    requires
        i < 8,
        y >> ((8 - i) as u8) == 0,
    ensures
        p ^ gf_mul(x, y) == (if y & 1 != 0 { p ^ x } else { p }) ^ gf_mul(
            if x & 0x80 != 0 { (x << 1) ^ 0x1b } else { x << 1 },
            y >> 1,
        ),
        (y >> 1) >> ((7 - i) as u8) == 0,
{
}

/// The first and the last state of the shift-and-add multiplication.
proof fn lemma_gmul_ends(p: u8, x: u8, y: u8)
    by (bit_vector)
    ensures
        0 ^ gf_mul(x, y) == gf_mul(x, y),
        y >> 8 == 0,
        y >> 0 == 0 ==> p ^ gf_mul(x, y) == p,
{
}

/// Multiply two elements of GF(2^8).
pub fn gmul(a: u8, b: u8) -> (p: u8)
    ensures
        p == gf_mul(a, b),
{
    let mut x: u8 = a;
    let mut y: u8 = b;
    let mut p: u8 = 0;
    let mut i: u8 = 0;
    proof {
        lemma_gmul_ends(p, a, b);
    }
    while i < 8
        invariant
            i <= 8,
            gf_mul(a, b) == p ^ gf_mul(x, y),
            y >> ((8 - i) as u8) == 0,
        decreases 8 - i,
    {
        proof {
            lemma_gmul_step(p, x, y, i);
        }
        if y & 1 != 0 {
            p = p ^ x;
        }
        let hi: u8 = x & 0x80;
        x = x << 1;
        if hi != 0 {
            x = x ^ 0x1b;  // reduce by the AES modulus
        }
        y = y >> 1;
        i = i + 1;
    }
    proof {
        lemma_gmul_ends(p, x, y);
    }
    p
}

// ---------------------------------------------------------------------------
// The field laws.
// ---------------------------------------------------------------------------

/// `gf_mul` is the product of polynomials reduced modulo
/// x^8 + x^4 + x^3 + x + 1: it differs from the unreduced product by a multiple
/// of the modulus.
pub proof fn gf_mul_is_remainder(a: u8, b: u8)
    ensures
        exists|q: u8|
            q < 0x80 && poly_mul(a as u16, b) == #[trigger] poly_mul(0x11b, q) ^ (gf_mul(a, b)
                as u16),
{
    let h = (poly_mul(a as u16, b) >> 8) as u8;
    let q = h ^ (h >> 4) ^ (h >> 5);
    assert(q < 0x80 && poly_mul(a as u16, b) == poly_mul(0x11b, q) ^ (gf_mul(a, b) as u16))
        by (bit_vector)
        requires
            h == (poly_mul(a as u16, b) >> 8) as u8,
            q == h ^ (h >> 4) ^ (h >> 5),
    ;
}

/// Multiplication is commutative.
pub proof fn gf_mul_commutes(a: u8, b: u8)
    by (bit_vector)
    ensures
        gf_mul(a, b) == gf_mul(b, a),
{
}

/// Multiplication distributes over addition, and one is its unit.
pub proof fn gf_mul_distributes(a: u8, b: u8, c: u8)
    by (bit_vector)
    ensures
        gf_mul(a, b ^ c) == gf_mul(a, b) ^ gf_mul(a, c),
        gf_mul(a, 1) == a,
        gf_mul(a, 0) == 0,
{
}

/// Multiplying by x (the byte 2) is `xtime`, and commutes with multiplication.
pub proof fn lemma_mul_xtime(a: u8, b: u8)
    by (bit_vector)
    ensures
        gf_mul(a, 2) == xtime(a),
        gf_mul(a, 3) == xtime(a) ^ a,
        gf_mul(a, xtime(b)) == xtime(gf_mul(a, b)),
{
}

/// `a` times the selected term is the selected product.
proof fn lemma_mul_select(a: u8, c: u8, i: u8, term: u8)
    ensures
        gf_mul(a, select(c, i, term)) == select(c, i, gf_mul(a, term)),
{
    gf_mul_distributes(a, 0, 0);
}

/// Multiplication is associative.
pub proof fn gf_mul_associates(a: u8, b: u8, c: u8)
    ensures
        gf_mul(a, gf_mul(b, c)) == gf_mul(gf_mul(a, b), c),
{
    let b1 = xtime(b);
    let b2 = xtime(b1);
    let b3 = xtime(b2);
    let b4 = xtime(b3);
    let b5 = xtime(b4);
    let b6 = xtime(b5);
    let b7 = xtime(b6);
    lemma_mul_xtime(a, b);
    lemma_mul_xtime(a, b1);
    lemma_mul_xtime(a, b2);
    lemma_mul_xtime(a, b3);
    lemma_mul_xtime(a, b4);
    lemma_mul_xtime(a, b5);
    lemma_mul_xtime(a, b6);
    lemma_mul_select(a, c, 0, b);
    lemma_mul_select(a, c, 1, b1);
    lemma_mul_select(a, c, 2, b2);
    lemma_mul_select(a, c, 3, b3);
    lemma_mul_select(a, c, 4, b4);
    lemma_mul_select(a, c, 5, b5);
    lemma_mul_select(a, c, 6, b6);
    lemma_mul_select(a, c, 7, b7);
    let s0 = select(c, 0, b);
    let s1 = s0 ^ select(c, 1, b1);
    let s2 = s1 ^ select(c, 2, b2);
    let s3 = s2 ^ select(c, 3, b3);
    let s4 = s3 ^ select(c, 4, b4);
    let s5 = s4 ^ select(c, 5, b5);
    let s6 = s5 ^ select(c, 6, b6);
    gf_mul_distributes(a, s0, select(c, 1, b1));
    gf_mul_distributes(a, s1, select(c, 2, b2));
    gf_mul_distributes(a, s2, select(c, 3, b3));
    gf_mul_distributes(a, s3, select(c, 4, b4));
    gf_mul_distributes(a, s4, select(c, 5, b5));
    gf_mul_distributes(a, s5, select(c, 6, b6));
    gf_mul_distributes(a, s6, select(c, 7, b7));
    reveal(gf_mul);
    assert(gf_mul(b, c) == s6 ^ select(c, 7, b7));
}

/// A product is zero only if a factor is.
pub proof fn gf_mul_no_zero_divisors(a: u8, b: u8)
    by (bit_vector)
    requires
        gf_mul(a, b) == 0,
    ensures
        a == 0 || b == 0,
{
}

// ---------------------------------------------------------------------------
// Inversion.
// ---------------------------------------------------------------------------

/// The norm a^17 of a nonzero element is a nonzero element of the subfield of
/// sixteen elements.
proof fn lemma_norm(a: u8, a2: u8, a4: u8, a8: u8, a16: u8, n: u8)
    by (bit_vector)
    requires
        a != 0,
        a2 == gf_mul(a, a),
        a4 == gf_mul(a2, a2),
        a8 == gf_mul(a4, a4),
        a16 == gf_mul(a8, a8),
        n == gf_mul(a, a16),
    ensures
        n == 0x01 || n == 0x0c || n == 0x0d || n == 0x50 || n == 0x51 || n == 0x5c || n == 0x5d || n == 0xb0 || n == 0xb1 || n == 0xbc || n == 0xbd || n == 0xe0 || n == 0xe1 || n == 0xec || n == 0xed,
{
}

/// The inverses in that subfield.
proof fn lemma_norm_inverses()
    by (bit_vector)
    ensures
        gf_mul(0x01, 0x01) == 1,
        gf_mul(0x0c, 0xb0) == 1,
        gf_mul(0x0d, 0xe1) == 1,
        gf_mul(0x50, 0xed) == 1,
        gf_mul(0x51, 0x5c) == 1,
        gf_mul(0x5c, 0x51) == 1,
        gf_mul(0x5d, 0xec) == 1,
        gf_mul(0xb0, 0x0c) == 1,
        gf_mul(0xb1, 0xe0) == 1,
        gf_mul(0xbc, 0xbd) == 1,
        gf_mul(0xbd, 0xbc) == 1,
        gf_mul(0xe0, 0xb1) == 1,
        gf_mul(0xe1, 0x0d) == 1,
        gf_mul(0xec, 0x5d) == 1,
        gf_mul(0xed, 0x50) == 1,
{
}

/// Every nonzero element has an inverse: a^16 times the inverse of the norm.
proof fn lemma_inverse_exists(a: u8)
    requires
        a != 0,
    ensures
        exists|b: u8| gf_mul(a, b) == 1,
{
    let a2 = gf_mul(a, a);
    let a4 = gf_mul(a2, a2);
    let a8 = gf_mul(a4, a4);
    let a16 = gf_mul(a8, a8);
    let n = gf_mul(a, a16);
    lemma_norm(a, a2, a4, a8, a16, n);
    lemma_norm_inverses();
    let m = choose|m: u8| gf_mul(n, m) == 1;
    gf_mul_associates(a, a16, m);
}

/// A byte times its inverse is one; the inverse is the only such factor.
pub proof fn gf_inv_is_inverse(a: u8, b: u8)
    requires
        a != 0,
    ensures
        gf_mul(a, gf_inv(a)) == 1,
        gf_mul(a, b) == 1 ==> b == gf_inv(a),
{
    lemma_inverse_exists(a);
    if gf_mul(a, b) == 1 {
        lemma_xor_bytes();
        gf_mul_distributes(a, b, gf_inv(a));
        gf_mul_no_zero_divisors(a, b ^ gf_inv(a));
    }
}

/// Inversion is its own inverse.
pub proof fn gf_inv_is_involution(a: u8)
    ensures
        gf_inv(gf_inv(a)) == a,
{
    if a != 0 {
        gf_inv_is_inverse(a, 0);
        gf_mul_distributes(a, 0, 0);
        gf_mul_commutes(a, gf_inv(a));
        gf_inv_is_inverse(gf_inv(a), a);
    }
}

/// Multiplicative inverse in GF(2^8) (0 maps to 0), by brute-force search.
pub fn ginv(a: u8) -> (b: u8)
    ensures
        b == gf_inv(a),
        a == 0 ==> b == 0,
        a != 0 ==> gf_mul(a, b) == 1,
{
    if a == 0 {
        return 0;
    }
    proof {
        gf_inv_is_inverse(a, 0);
        gf_mul_distributes(a, 0, 0);
    }
    let mut b: u16 = 1;
    while b < 256
        invariant
            a != 0,
            1 <= b <= 256,
            forall|c: u8| c < b ==> gf_mul(a, c) != 1,
        decreases 256 - b,
    {
        if gmul(a, b as u8) == 1 {
            proof {
                gf_inv_is_inverse(a, b as u8);
            }
            return b as u8;
        }
        b = b + 1;
    }
    0
}

} // verus!
