use vstd::prelude::*;

verus! {

/// Fixed-point units in one whole: prices, rates and percentages are
/// counted in millionths, so `19.99` is `19_990_000` and a rate of
/// `0.0775` is `77_500`.
pub const UNIT: i64 = 1_000_000;

/// Units of one whole in a total: a total is the exact product of a
/// price, a rate and a percentage, so it is counted in units of 10^-18.
pub const TOTAL_UNIT: i128 = 1_000_000_000_000_000_000;

/// Absolute value of an integer.
pub open spec fn abs(x: int) -> int {
    if x < 0 {
        -x
    } else {
        x
    }
}

/// The magnitude of a product is the product of the magnitudes.
pub proof fn lemma_abs_mul(x: int, y: int)
    ensures
        abs(x * y) == abs(x) * abs(y),
        abs(x) * abs(y) >= 0,
{
    if x >= 0 && y >= 0 {
        assert(x * y >= 0) by (nonlinear_arith)
            requires
                x >= 0,
                y >= 0,
        ;
    } else if x >= 0 && y < 0 {
        assert(x * y <= 0 && x * (-y) == -(x * y)) by (nonlinear_arith)
            requires
                x >= 0,
                y < 0,
        ;
    } else if x < 0 && y >= 0 {
        assert(x * y <= 0 && (-x) * y == -(x * y)) by (nonlinear_arith)
            requires
                x < 0,
                y >= 0,
        ;
    } else {
        assert(x * y > 0 && (-x) * (-y) == x * y) by (nonlinear_arith)
            requires
                x < 0,
                y < 0,
        ;
    }
}

/// Multiplying by a nonnegative factor keeps an order.
pub proof fn lemma_mul_le(x: int, y: int, z: int)
    requires
        0 <= x,
        y <= z,
    ensures
        x * y <= x * z,
{
    assert(x * y <= x * z) by (nonlinear_arith)
        requires
            0 <= x,
            y <= z,
    ;
}

} // verus!
