//! Points, rectangles and the integer arithmetic they are built on.

use vstd::prelude::*;

pub mod rect;
pub mod vec2;

pub use rect::Rect;
pub use vec2::Vec2;

verus! {

/// Number of length units in one pixel.
pub const PIXEL: i64 = 1000;

/// Whether `v` can be stored as a length.
pub open spec fn fits(v: int) -> bool {
    i64::MIN <= v <= i64::MAX
}

/// The quotient `n / d` rounded towards negative infinity, for any nonzero `d`.
pub open spec fn floor_div(n: int, d: int) -> int {
    if d > 0 {
        n / d
    } else {
        (-n) / (-d)
    }
}

/// `floor_div` is the unique whole number `q` with `q * d <= n < (q + 1) * d`
/// when `d` is positive.
pub proof fn lemma_floor_div_bounds(n: int, d: int)
    requires
        d > 0,
    ensures
        floor_div(n, d) * d <= n < (floor_div(n, d) + 1) * d,
{
    vstd::arithmetic::div_mod::lemma_fundamental_div_mod(n, d);
    vstd::arithmetic::div_mod::lemma_mod_bound(n, d);
    assert(d * (n / d) == (n / d) * d) by (nonlinear_arith);
    assert(((n / d) + 1) * d == (n / d) * d + d) by (nonlinear_arith);
}

/// A quotient that lies between two multiples of `d` is the floor quotient.
pub proof fn lemma_floor_div_unique(n: int, d: int, q: int)
    requires
        d > 0,
        q * d <= n < (q + 1) * d,
    ensures
        floor_div(n, d) == q,
{
    let r = n - q * d;
    assert((q + 1) * d == q * d + d) by (nonlinear_arith);
    vstd::arithmetic::div_mod::lemma_fundamental_div_mod_converse_div(n, d, q, r);
}

/// An exact multiple divides without remainder: `(k * d) / d == k`.
pub proof fn lemma_floor_div_multiple(k: int, d: int)
    requires
        d != 0,
    ensures
        floor_div(k * d, d) == k,
{
    if d > 0 {
        assert(k * d < (k + 1) * d) by (nonlinear_arith)
            requires
                d > 0,
        ;
        lemma_floor_div_unique(k * d, d, k);
    } else {
        assert(-(k * d) == k * (-d)) by (nonlinear_arith);
        assert(k * (-d) < (k + 1) * (-d)) by (nonlinear_arith)
            requires
                d < 0,
        ;
        lemma_floor_div_unique(k * (-d), -d, k);
    }
}

/// Dividing by a nonzero whole number never increases the magnitude.
pub proof fn lemma_floor_div_magnitude(n: int, d: int)
    requires
        d != 0,
    ensures
        n >= 0 ==> -n <= floor_div(n, d) <= n,
        n < 0 ==> n <= floor_div(n, d) <= -n,
{
    let (num, den) = if d > 0 {
        (n, d)
    } else {
        (-n, -d)
    };
    lemma_floor_div_bounds(num, den);
    let q = floor_div(num, den);
    assert(floor_div(n, d) == q);
    assert(q * den <= num < (q + 1) * den);
    assert(num >= 0 ==> 0 <= q <= num) by (nonlinear_arith)
        requires
            den >= 1,
            q * den <= num < (q + 1) * den,
    ;
    assert(num < 0 ==> num <= q < 0) by (nonlinear_arith)
        requires
            den >= 1,
            q * den <= num < (q + 1) * den,
    ;
}

/// Computes `floor_div(n, d)`.
pub fn div_floor(n: i128, d: i128) -> (q: i128)
    requires
        d != 0,
        n > i128::MIN,
        d > i128::MIN,
    ensures
        q == floor_div(n as int, d as int),
{
    let (num, den): (i128, i128) = if d > 0 {
        (n, d)
    } else {
        (-n, -d)
    };
    if num >= 0 {
        num / den
    } else {
        let m: i128 = -(num + 1);
        let q0: i128 = m / den;
        proof {
            let mi = m as int;
            let di = den as int;
            vstd::arithmetic::div_mod::lemma_fundamental_div_mod(mi, di);
            vstd::arithmetic::div_mod::lemma_mod_bound(mi, di);
            vstd::arithmetic::div_mod::lemma_div_pos_is_pos(mi, di);
            vstd::arithmetic::div_mod::lemma_div_nonincreasing(mi, di);
            let q = mi / di;
            let r = mi % di;
            assert(di * q == q * di) by (nonlinear_arith);
            assert((-q - 1) * di == -(q * di) - di) by (nonlinear_arith);
            assert((-q) * di == -(q * di)) by (nonlinear_arith);
            assert(((-q - 1) + 1) * di == (-q) * di);
            lemma_floor_div_unique(num as int, di, -q - 1);
        }
        -q0 - 1
    }
}

} // verus!
