//! Division that rounds up.

use vstd::arithmetic::div_mod::{lemma_fundamental_div_mod, lemma_fundamental_div_mod_converse};
use vstd::prelude::*;

verus! {

/// The least number of parts of size `b` that cover `a`.
pub open spec fn ceil_div(a: int, b: int) -> int {
    (a + b - 1) / b
}

/// What rounding up to a multiple gives.
pub proof fn lemma_ceil_div(a: int, b: int)
    requires
        a >= 0,
        b > 0,
    ensures
        a <= ceil_div(a, b) * b < a + b,
        ceil_div(a, b) == a / b + (if a % b == 0 { 0int } else { 1 }),
        ceil_div(a, b) * b == a + (if a % b == 0 { 0 } else { b - a % b }),
        (ceil_div(a, b) * b) % b == 0,
        ceil_div(a, b) <= a,
        a > 0 ==> ceil_div(a, b) > 0,
{
    let q = a / b;
    let r = a % b;
    lemma_fundamental_div_mod(a, b);
    if r == 0 {
        assert(a + b - 1 == b * q + (b - 1));
        lemma_fundamental_div_mod_converse(a + b - 1, b, q, b - 1);
    } else {
        assert(b * (q + 1) == b * q + b) by (nonlinear_arith);
        assert(a + b - 1 == b * (q + 1) + (r - 1));
        lemma_fundamental_div_mod_converse(a + b - 1, b, q + 1, r - 1);
    }
    let c = ceil_div(a, b);
    assert(b * c == c * b) by (nonlinear_arith);
    assert(b * (q + 1) == b * q + b) by (nonlinear_arith);
    lemma_fundamental_div_mod_converse(c * b, b, c, 0);
    assert(a > 0 ==> c > 0) by (nonlinear_arith)
        requires
            a <= c * b,
            b > 0,
    ;
    assert(c <= a) by (nonlinear_arith)
        requires
            c * b < a + b,
            b > 0,
            a >= 0,
    ;
}

} // verus!
