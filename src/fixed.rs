//! Signed fixed-point numbers with 32 fractional bits, held in `i64`.
use vstd::prelude::*;

verus! {

/// The fixed-point representation of 1: a value `v` stands for `v / 2^32`.
pub const ONE: i64 = 4294967296;

/// `ONE * ONE`, the numerator of a fixed-point reciprocal.
pub const ONE_SQ: u128 = 18446744073709551616;

/// `a * b` in fixed point, rounded toward negative infinity.
pub open spec fn fx_mul(a: int, b: int) -> int {
    (a * b) / (ONE as int)
}

/// `x / ONE` rounded down, for `x` whose quotient fits in `i64`.
pub(crate) fn floor_div_one(x: i128) -> (r: i64)
    requires
        -0x10000000000000000000000 <= x <= 0x10000000000000000000000,
    ensures
        r == (x as int) / (ONE as int),
{
    let q = x.checked_div_euclid(ONE as i128);
    match q {
        Some(v) => {
            assert(-0x100000000000000 <= (x as int) / (ONE as int) <= 0x100000000000000) by (nonlinear_arith)
                requires
                    -0x10000000000000000000000 <= x <= 0x10000000000000000000000,
            {}
            v as i64
        },
        None => {
            assert(false) by (nonlinear_arith)
                requires
                    -0x10000000000000000000000 <= x <= 0x10000000000000000000000,
                    !(i128::MIN <= (x as int) / 4294967296 <= i128::MAX),
            {}
            0
        },
    }
}

/// `a * b` in fixed point, rounded down, for factors whose product fits.
pub fn fx_product(a: i64, b: i64) -> (r: i64)
    requires
        -0x400000000000000000 <= a * b <= 0x400000000000000000,
    ensures
        r == fx_mul(a as int, b as int),
{
    floor_div_one((a as i128) * (b as i128))
}

} // verus!
