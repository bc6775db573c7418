//! Fixed-point channel values and the interpolation arithmetic on them.
//!
//! A channel value is a 3-component vector of `i64` milli-units (one unit of
//! source data is 1000 milli-units). Components are kept within
//! `±VALUE_LIMIT` so that every intermediate product of the interpolation
//! arithmetic fits in the machine integers used to compute it.

use vstd::prelude::*;
use vstd::arithmetic::div_mod::{
    lemma_div_is_ordered, lemma_div_multiples_vanish, lemma_div_nonincreasing,
    lemma_div_pos_is_pos,
};

verus! {

/// Largest magnitude a stored component (value or tangent) may have,
/// in milli-units: one million source units.
pub const VALUE_LIMIT: i64 = 1_000_000_000;

/// Largest tick index; ticks are `u16`.
pub const TICK_LIMIT: i64 = 65_535;

/// Mathematical image of an [`AnimValue`]: three unbounded integers.
pub struct ValueView {
    pub x: int,
    pub y: int,
    pub z: int,
}

/// A sampled channel value: position or scaling vector, or Euler rotation
/// angles, in fixed-point milli-units.
#[derive(Clone, Copy, Debug, PartialEq, Eq, Structural)]
pub struct AnimValue {
    pub x: i64,
    pub y: i64,
    pub z: i64,
}

impl View for AnimValue {
    type V = ValueView;

    open spec fn view(&self) -> ValueView {
        ValueView { x: self.x as int, y: self.y as int, z: self.z as int }
    }
}

/// Whether every component is within the stored-component limit.
pub open spec fn value_in_range(v: ValueView) -> bool {
    &&& -VALUE_LIMIT <= v.x <= VALUE_LIMIT
    &&& -VALUE_LIMIT <= v.y <= VALUE_LIMIT
    &&& -VALUE_LIMIT <= v.z <= VALUE_LIMIT
}

impl AnimValue {
    /// The all-zero value.
    pub fn zero() -> (r: AnimValue)
        ensures
            r@ == (ValueView { x: 0, y: 0, z: 0 }),
    {
        AnimValue { x: 0, y: 0, z: 0 }
    }

    /// True when every component is within the stored-component limit.
    pub fn in_range(&self) -> (r: bool)
        ensures
            r == value_in_range(self@),
    {
        -VALUE_LIMIT <= self.x && self.x <= VALUE_LIMIT && -VALUE_LIMIT <= self.y && self.y
            <= VALUE_LIMIT && -VALUE_LIMIT <= self.z && self.z <= VALUE_LIMIT
    }
}

/// Division that truncates toward zero (the behaviour of Rust's `/` on
/// signed integers), meant for positive divisors.
pub open spec fn tdiv(a: int, b: int) -> int {
    if a >= 0 {
        a / b
    } else {
        -((-a) / b)
    }
}

/// Truncating division never exceeds magnitude `c` when the numerator is
/// at most `c` times the divisor.
pub proof fn lemma_tdiv_bound(a: int, b: int, c: int)
    requires
        0 < b,
        0 <= c,
        -(c * b) <= a <= c * b,
    ensures
        -c <= tdiv(a, b) <= c,
{
    assert(c * b == b * c) by (nonlinear_arith);
    if a >= 0 {
        lemma_div_pos_is_pos(a, b);
        lemma_div_is_ordered(a, b * c, b);
        lemma_div_multiples_vanish(c, b);
    } else {
        lemma_div_pos_is_pos(-a, b);
        lemma_div_is_ordered(-a, b * c, b);
        lemma_div_multiples_vanish(c, b);
    }
}

/// Dividing an exact multiple recovers the factor, for either sign.
pub proof fn lemma_tdiv_exact(v: int, b: int)
    requires
        0 < b,
    ensures
        tdiv(v * b, b) == v,
{
    if v >= 0 {
        assert(v * b == b * v) by (nonlinear_arith);
        assert(b * v >= 0) by (nonlinear_arith)
            requires
                v >= 0,
                b > 0,
        ;
        lemma_div_multiples_vanish(v, b);
    } else {
        assert(v * b < 0) by (nonlinear_arith)
            requires
                v < 0,
                b > 0,
        ;
        assert(-(v * b) == b * (-v)) by (nonlinear_arith);
        lemma_div_multiples_vanish(-v, b);
    }
}

/// Truncating division of `i64` values, computed with `checked_div`.
fn div_trunc64(a: i64, b: i64) -> (q: i64)
    requires
        0 < b,
    ensures
        q == tdiv(a as int, b as int),
{
    proof {
        if a >= 0 {
            lemma_div_pos_is_pos(a as int, b as int);
            lemma_div_nonincreasing(a as int, b as int);
        } else {
            lemma_div_pos_is_pos(-(a as int), b as int);
            lemma_div_nonincreasing(-(a as int), b as int);
        }
    }
    let q = a.checked_div(b);
    q.unwrap()
}

/// Truncating division of `i128` values, computed with `checked_div`.
fn div_trunc128(a: i128, b: i128) -> (q: i128)
    requires
        0 < b,
    ensures
        q == tdiv(a as int, b as int),
{
    proof {
        if a >= 0 {
            lemma_div_pos_is_pos(a as int, b as int);
            lemma_div_nonincreasing(a as int, b as int);
        } else {
            lemma_div_pos_is_pos(-(a as int), b as int);
            lemma_div_nonincreasing(-(a as int), b as int);
        }
    }
    let q = a.checked_div(b);
    q.unwrap()
}

/// One component of linear interpolation: `v0 + (v1 - v0) * n / d`,
/// truncated toward zero.
pub open spec fn lerp1(v0: int, v1: int, n: int, d: int) -> int {
    v0 + tdiv((v1 - v0) * n, d)
}

/// A product of a bounded factor and a nonnegative factor stays bounded.
proof fn lemma_mul_bounds(a: int, b: int, m: int, k: int)
    by (nonlinear_arith)
    requires
        -m <= a <= m,
        0 <= b <= k,
        0 <= m,
    ensures
        -(m * k) <= a * b <= m * k,
        -(m * b) <= a * b <= m * b,
{
}

/// One component of linear interpolation on machine integers.
fn lerp_comp(v0: i64, v1: i64, n: i64, d: i64) -> (r: i64)
    requires
        -VALUE_LIMIT <= v0 <= VALUE_LIMIT,
        -VALUE_LIMIT <= v1 <= VALUE_LIMIT,
        0 <= n <= d,
        0 < d <= TICK_LIMIT,
    ensures
        r == lerp1(v0 as int, v1 as int, n as int, d as int),
{
    let diff = v1 - v0;
    proof {
        lemma_mul_bounds(diff as int, n as int, 2 * (VALUE_LIMIT as int), TICK_LIMIT as int);
    }
    let prod = diff * n;
    proof {
        lemma_mul_bounds(diff as int, n as int, 2 * (VALUE_LIMIT as int), d as int);
        lemma_tdiv_bound(prod as int, d as int, 2 * (VALUE_LIMIT as int));
    }
    let q = div_trunc64(prod, d);
    v0 + q
}

/// Linear interpolation of whole values, component-wise.
pub open spec fn lerp_value(v0: ValueView, v1: ValueView, n: int, d: int) -> ValueView {
    ValueView {
        x: lerp1(v0.x, v1.x, n, d),
        y: lerp1(v0.y, v1.y, n, d),
        z: lerp1(v0.z, v1.z, n, d),
    }
}

/// Linear interpolation on machine values.
pub fn value_lerp(v0: &AnimValue, v1: &AnimValue, n: u16, d: u16) -> (r: AnimValue)
    requires
        value_in_range(v0@),
        value_in_range(v1@),
        n <= d,
        0 < d,
    ensures
        r@ == lerp_value(v0@, v1@, n as int, d as int),
{
    AnimValue {
        x: lerp_comp(v0.x, v1.x, n as i64, d as i64),
        y: lerp_comp(v0.y, v1.y, n as i64, d as i64),
        z: lerp_comp(v0.z, v1.z, n as i64, d as i64),
    }
}

/// One component of cubic Hermite interpolation at `n` of `d` ticks past
/// the left keyframe, with out-tangent `m0` of the left keyframe and
/// in-tangent `m1` of the right keyframe, both in milli-units per tick and
/// scaled by the tick delta as the Hermite basis requires. The four basis
/// polynomials are evaluated over the common denominator `d^3` and the sum
/// is truncated toward zero.
pub open spec fn hermite1(v0: int, v1: int, m0: int, m1: int, n: int, d: int) -> int {
    let c00 = d * d * d + n * n * n * 2 - n * n * d * 3;
    let c10 = n * n * n - n * n * d * 2 + n * d * d;
    let c01 = n * n * d * 3 - n * n * n * 2;
    let c11 = n * n * n - n * n * d;
    tdiv(c00 * v0 + c10 * (m0 * d) + c01 * v1 + c11 * (m1 * d), d * d * d)
}

/// Monomial bounds used for overflow reasoning: for `0 <= n <= d <= TICK_LIMIT`
/// every degree-3 monomial in `n` and `d` lies within `d^3 <= TICK_LIMIT^3`.
proof fn lemma_cube_bounds(n: int, d: int)
    by (nonlinear_arith)
    requires
        0 <= n <= d,
        0 < d <= 65_535,
    ensures
        0 < d * d <= 65_535 * 65_535,
        0 < d * d * d <= 65_535 * 65_535 * 65_535,
        0 <= n * d <= d * d,
        0 <= n * n <= d * d,
        0 <= n * n * n <= d * d * d,
        0 <= n * n * d <= d * d * d,
        0 <= n * d * d <= d * d * d,
{
}

/// Bounds on the integer Hermite basis coefficients for `0 <= n <= d`:
/// each has magnitude at most `d^3`.
proof fn lemma_hermite_coeff_bounds(n: int, d: int)
    requires
        0 <= n <= d,
        0 < d,
    ensures
        0 <= d * d * d + n * n * n * 2 - n * n * d * 3 <= d * d * d,
        0 <= n * n * n - n * n * d * 2 + n * d * d <= d * d * d,
        0 <= n * n * d * 3 - n * n * n * 2 <= d * d * d,
        -(d * d * d) <= n * n * n - n * n * d <= 0,
{
    assert(0 <= d * d * d + n * n * n * 2 - n * n * d * 3 <= d * d * d) by (nonlinear_arith)
        requires
            0 <= n <= d,
            0 < d,
    {
        assert(d * d * d + n * n * n * 2 - n * n * d * 3 == (d - n) * (d - n) * (d + n * 2));
        assert((d - n) * (d - n) * (d + n * 2) >= 0);
        assert(n * n * n * 2 <= n * n * d * 3);
    }
    assert(0 <= n * n * n - n * n * d * 2 + n * d * d <= d * d * d) by (nonlinear_arith)
        requires
            0 <= n <= d,
            0 < d,
    {
        assert(n * n * n - n * n * d * 2 + n * d * d == n * ((d - n) * (d - n)));
        assert(n * ((d - n) * (d - n)) <= d * (d * d));
    }
    assert(0 <= n * n * d * 3 - n * n * n * 2 <= d * d * d) by (nonlinear_arith)
        requires
            0 <= n <= d,
            0 < d,
    {
        assert(n * n * n * 2 <= n * n * d * 2);
        assert(n * n * d <= d * d * d);
    }
    assert(-(d * d * d) <= n * n * n - n * n * d <= 0) by (nonlinear_arith)
        requires
            0 <= n <= d,
            0 < d,
    {
        assert(n * n * d - n * n * n == n * n * (d - n));
        assert(0 <= n * n * (d - n) <= d * d * d);
    }
}

/// A term `c * v` with `|c| <= q` and `|v| <= m` is within `q * m`.
proof fn lemma_term_bound(c: int, v: int, q: int, m: int)
    by (nonlinear_arith)
    requires
        -q <= c <= q,
        -m <= v <= m,
        0 <= q,
        0 <= m,
    ensures
        -(q * m) <= c * v <= q * m,
{
}

/// One component of cubic Hermite interpolation on machine integers.
fn hermite_comp(v0: i64, v1: i64, m0: i64, m1: i64, n: i64, d: i64) -> (r: i64)
    requires
        -VALUE_LIMIT <= v0 <= VALUE_LIMIT,
        -VALUE_LIMIT <= v1 <= VALUE_LIMIT,
        -VALUE_LIMIT <= m0 <= VALUE_LIMIT,
        -VALUE_LIMIT <= m1 <= VALUE_LIMIT,
        0 <= n <= d,
        0 < d <= TICK_LIMIT,
    ensures
        r == hermite1(v0 as int, v1 as int, m0 as int, m1 as int, n as int, d as int),
{
    proof {
        lemma_cube_bounds(n as int, d as int);
        lemma_hermite_coeff_bounds(n as int, d as int);
        lemma_mul_bounds(m0 as int, d as int, VALUE_LIMIT as int, TICK_LIMIT as int);
        lemma_mul_bounds(m1 as int, d as int, VALUE_LIMIT as int, TICK_LIMIT as int);
    }
    let ni: i128 = n as i128;
    let di: i128 = d as i128;
    let c00: i128 = di * di * di + ni * ni * ni * 2 - ni * ni * di * 3;
    let c10: i128 = ni * ni * ni - ni * ni * di * 2 + ni * di * di;
    let c01: i128 = ni * ni * di * 3 - ni * ni * ni * 2;
    let c11: i128 = ni * ni * ni - ni * ni * di;
    let w0: i128 = (m0 as i128) * di;
    let w1: i128 = (m1 as i128) * di;
    let d3: i128 = di * di * di;
    proof {
        let cube_cap: int = 65_535int * 65_535 * 65_535;
        let w_cap: int = (VALUE_LIMIT as int) * (TICK_LIMIT as int);
        lemma_term_bound(c00 as int, v0 as int, cube_cap, VALUE_LIMIT as int);
        lemma_term_bound(c10 as int, w0 as int, cube_cap, w_cap);
        lemma_term_bound(c01 as int, v1 as int, cube_cap, VALUE_LIMIT as int);
        lemma_term_bound(c11 as int, w1 as int, cube_cap, w_cap);
    }
    let num: i128 = c00 * (v0 as i128) + c10 * w0 + c01 * (v1 as i128) + c11 * w1;
    proof {
        let w_cap: int = (VALUE_LIMIT as int) * (TICK_LIMIT as int);
        lemma_term_bound(c00 as int, v0 as int, d3 as int, VALUE_LIMIT as int);
        lemma_term_bound(c10 as int, w0 as int, d3 as int, w_cap);
        lemma_term_bound(c01 as int, v1 as int, d3 as int, VALUE_LIMIT as int);
        lemma_term_bound(c11 as int, w1 as int, d3 as int, w_cap);
        let cap: int = 2 * (VALUE_LIMIT as int) + 2 * w_cap;
        assert(-(cap * (d3 as int)) <= num as int <= cap * (d3 as int)) by (nonlinear_arith)
            requires
                -((d3 as int) * (VALUE_LIMIT as int)) <= (c00 as int) * (v0 as int) <= (d3 as int)
                    * (VALUE_LIMIT as int),
                -((d3 as int) * w_cap) <= (c10 as int) * (w0 as int) <= (d3 as int) * w_cap,
                -((d3 as int) * (VALUE_LIMIT as int)) <= (c01 as int) * (v1 as int) <= (d3 as int)
                    * (VALUE_LIMIT as int),
                -((d3 as int) * w_cap) <= (c11 as int) * (w1 as int) <= (d3 as int) * w_cap,
                num as int == (c00 as int) * (v0 as int) + (c10 as int) * (w0 as int) + (c01
                    as int) * (v1 as int) + (c11 as int) * (w1 as int),
                cap == 2 * (VALUE_LIMIT as int) + 2 * w_cap,
                w_cap == (VALUE_LIMIT as int) * (TICK_LIMIT as int),
                0 < d3,
        ;
        lemma_tdiv_bound(num as int, d3 as int, cap);
    }
    let q = div_trunc128(num, d3);
    q as i64
}

/// Cubic Hermite interpolation of whole values, component-wise.
pub open spec fn hermite_value(
    v0: ValueView,
    v1: ValueView,
    m0: ValueView,
    m1: ValueView,
    n: int,
    d: int,
) -> ValueView {
    ValueView {
        x: hermite1(v0.x, v1.x, m0.x, m1.x, n, d),
        y: hermite1(v0.y, v1.y, m0.y, m1.y, n, d),
        z: hermite1(v0.z, v1.z, m0.z, m1.z, n, d),
    }
}

/// Cubic Hermite interpolation on machine values. `m0` is the out-tangent of
/// the left keyframe, `m1` the in-tangent of the right keyframe.
pub fn value_hermite(
    v0: &AnimValue,
    v1: &AnimValue,
    m0: &AnimValue,
    m1: &AnimValue,
    n: u16,
    d: u16,
) -> (r: AnimValue)
    requires
        value_in_range(v0@),
        value_in_range(v1@),
        value_in_range(m0@),
        value_in_range(m1@),
        n <= d,
        0 < d,
    ensures
        r@ == hermite_value(v0@, v1@, m0@, m1@, n as int, d as int),
{
    AnimValue {
        x: hermite_comp(v0.x, v1.x, m0.x, m1.x, n as i64, d as i64),
        y: hermite_comp(v0.y, v1.y, m0.y, m1.y, n as i64, d as i64),
        z: hermite_comp(v0.z, v1.z, m0.z, m1.z, n as i64, d as i64),
    }
}

} // verus!
