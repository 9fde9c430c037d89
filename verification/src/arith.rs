use vstd::prelude::*;

verus! {

/// Whether a mathematical integer fits into an `i32`.
pub open spec fn fits_i32(v: int) -> bool {
    i32::MIN <= v <= i32::MAX
}

/// Division rounding toward zero, as `/` does on signed machine integers.
pub open spec fn tdiv(a: int, b: int) -> int {
    if a >= 0 {
        a / b
    } else {
        -((-a) / b)
    }
}

/// The smaller of two integers.
pub open spec fn min_int(a: int, b: int) -> int {
    if a <= b { a } else { b }
}

/// The larger of two integers.
pub open spec fn max_int(a: int, b: int) -> int {
    if a >= b { a } else { b }
}

/// A product `i * d` with `0 <= i <= k` lies between `0` and `k * d`.
pub proof fn lemma_mul_between(i: int, k: int, d: int)
    requires
        0 <= i <= k,
    ensures
        d >= 0 ==> 0 <= i * d <= k * d,
        d < 0 ==> k * d <= i * d <= 0,
{
    if d >= 0 {
        assert(0 <= i * d <= k * d) by (nonlinear_arith)
            requires
                0 <= i <= k,
                d >= 0,
        ;
    } else {
        assert(k * d <= i * d <= 0) by (nonlinear_arith)
            requires
                0 <= i <= k,
                d < 0,
        ;
    }
}

/// If `base` and `base + k * d` fit in `i32`, so does every `base + i * d`
/// with `0 <= i <= k`, and so does `i * d`.
pub proof fn lemma_linear_fits(base: int, i: int, k: int, d: int)
    requires
        0 <= i <= k,
        fits_i32(base),
        fits_i32(k * d),
        fits_i32(base + k * d),
    ensures
        fits_i32(i * d),
        fits_i32(base + i * d),
{
    lemma_mul_between(i, k, d);
}

/// Quotients of truncating division by a positive divisor stay in range.
pub proof fn lemma_tdiv_bounds(a: int, b: int)
    requires
        b >= 1,
    ensures
        a >= 0 ==> 0 <= tdiv(a, b) <= a,
        a < 0 ==> a <= tdiv(a, b) <= 0,
{
    if a >= 0 {
        assert(0 <= a / b <= a) by (nonlinear_arith)
            requires
                a >= 0,
                b >= 1,
        ;
    } else {
        assert(0 <= (-a) / b <= -a) by (nonlinear_arith)
            requires
                -a > 0,
                b >= 1,
        ;
    }
}

} // verus!
