//! Fixed-point scalars: the unit, saturation and floor division.

use vstd::prelude::*;
use vstd::arithmetic::div_mod::{
    lemma_fundamental_div_mod,
    lemma_fundamental_div_mod_converse,
    lemma_mod_bound,
};

verus! {

/// The fixed-point representation of 1: a stored value `v` stands for `v / ONE`.
pub const ONE: i32 = 1_000_000;

/// The nearest value to `v` that an `i32` can hold.
pub open spec fn clamp(v: int) -> int {
    if v < i32::MIN {
        i32::MIN as int
    } else if v > i32::MAX {
        i32::MAX as int
    } else {
        v
    }
}

/// Whether `v` is the value of some `i32`.
pub open spec fn fits(v: int) -> bool {
    i32::MIN <= v <= i32::MAX
}

/// Narrows `v` to an `i32`, stopping at the ends of the range.
pub fn saturate(v: i128) -> (r: i32)
    ensures
        r == clamp(v as int),
{
    if v < -0x8000_0000 {
        i32::MIN
    } else if v > 0x7fff_ffff {
        i32::MAX
    } else {
        v as i32
    }
}

/// The quotient of `n` by a positive `d`, rounded towards minus infinity.
pub fn div_floor(n: i128, d: i128) -> (q: i128)
    requires
        d > 0,
    ensures
        q == n as int / d as int,
{
    if n >= 0 {
        n / d
    } else {
        let m: i128 = -(n + 1);
        let t: i128 = m / d;
        proof {
            let r = m as int % d as int;
            assert(m == d * (m as int / d as int) + r && 0 <= r < d) by (nonlinear_arith)
                requires
                    d > 0,
                    r == m as int % d as int,
            ;
            assert(n == (-t - 1) * d + (d - 1 - r)) by (nonlinear_arith)
                requires
                    m == d * t + r,
                    n == -m - 1,
            ;
            lemma_fundamental_div_mod_converse(n as int, d as int, -t - 1, d - 1 - r);
        }
        -t - 1
    }
}

/// A floor quotient misses the exact quotient by less than one:
/// `d * (n / d) <= n < d * (n / d + 1)`.
pub proof fn lemma_floor_brackets(n: int, d: int)
    requires
        d > 0,
    ensures
        d * (n / d) <= n < d * (n / d + 1),
{
    lemma_fundamental_div_mod(n, d);
    lemma_mod_bound(n, d);
    assert(d * (n / d + 1) == d * (n / d) + d) by (nonlinear_arith);
}

/// The product of two values within the given limits, exact in an `i128`.
pub(crate) fn mul_within(a: i128, b: i128, Ghost(la): Ghost<int>, Ghost(lb): Ghost<int>) -> (r:
    i128)
    requires
        -la <= a <= la,
        -lb <= b <= lb,
        la * lb <= i128::MAX,
    ensures
        r == a * b,
        -(la * lb) <= r <= la * lb,
{
    assert(-(la * lb) <= a * b <= la * lb) by (nonlinear_arith)
        requires
            -la <= a <= la,
            -lb <= b <= lb,
    ;
    a * b
}

} // verus!
