//! Fixed-point numbers: a real value `v` is held as the integer `v * ONE`.
//! Products are rounded toward zero, so that negating a factor negates the
//! product exactly.
use vstd::prelude::*;

verus! {

/// Units per real unit.
pub const ONE: i64 = 1_000_000;

/// `a / ONE`, rounded toward zero.
pub open spec fn div_one(a: int) -> int {
    if a >= 0 {
        a / (ONE as int)
    } else {
        -((-a) / (ONE as int))
    }
}

/// The product of two fixed-point values, rounded toward zero.
pub open spec fn fmul(a: int, b: int) -> int {
    div_one(a * b)
}

/// Integer division by `ONE`, rounded toward zero.
pub fn trunc_div_one(a: i128) -> (r: i128)
    requires
        -0x4000_0000_0000_0000_0000_0000_0000_0000 <= a <= 0x4000_0000_0000_0000_0000_0000_0000_0000,
    ensures
        r == div_one(a as int),
{
    let one = ONE as i128;
    if a >= 0 {
        a / one
    } else {
        let n = (-a) / one;
        -n
    }
}

/// Multiplies two fixed-point values.
pub fn mul_fixed(a: i128, b: i128) -> (r: i128)
    requires
        -0x4000_0000_0000_0000_0000_0000_0000_0000 <= a * b <= 0x4000_0000_0000_0000_0000_0000_0000_0000,
    ensures
        r == fmul(a as int, b as int),
{
    trunc_div_one(a * b)
}

/// Bounds the product of two bounded fixed-point values.
pub proof fn lemma_fmul_bound(a: int, b: int, ma: int, mb: int)
    requires
        0 <= ma,
        0 <= mb,
        -ma <= a <= ma,
        -mb <= b <= mb,
    ensures
        -(ma * mb) <= a * b <= ma * mb,
        -((ma * mb) / (ONE as int)) <= fmul(a, b) <= (ma * mb) / (ONE as int),
{
    assert(-(ma * mb) <= a * b <= ma * mb) by (nonlinear_arith)
        requires
            0 <= ma,
            0 <= mb,
            -ma <= a <= ma,
            -mb <= b <= mb,
    ;
    if a * b >= 0 {
        vstd::arithmetic::div_mod::lemma_div_is_ordered(a * b, ma * mb, ONE as int);
    } else {
        vstd::arithmetic::div_mod::lemma_div_is_ordered(-(a * b), ma * mb, ONE as int);
    }
}

/// Negating either factor negates the product.
pub proof fn lemma_fmul_neg(a: int, b: int)
    ensures
        fmul(-a, b) == -fmul(a, b),
        fmul(a, -b) == -fmul(a, b),
        fmul(-a, -b) == fmul(a, b),
{
    assert((-a) * b == -(a * b) && a * (-b) == -(a * b) && (-a) * (-b) == a * b)
        by (nonlinear_arith);
}

/// `ONE` is the unit of the product, and zero annihilates it.
pub proof fn lemma_fmul_one_zero(v: int)
    ensures
        fmul(ONE as int, v) == v,
        fmul(0, v) == 0,
{
    let one = ONE as int;
    assert(one * v == v * one && 0 * v == 0) by (nonlinear_arith);
    if v >= 0 {
        vstd::arithmetic::div_mod::lemma_div_multiples_vanish(v, one);
    } else {
        assert(-(v * one) == (-v) * one) by (nonlinear_arith);
        vstd::arithmetic::div_mod::lemma_div_multiples_vanish(-v, one);
    }
}

} // verus!
