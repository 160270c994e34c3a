//! Exact fixed-point scalar arithmetic.
//!
//! Every coordinate, length and color channel in this crate is an `i64`
//! holding the underlying real value times [`SCALE`].  All operations are
//! defined exactly over the mathematical integers: a product is scaled back
//! down with division truncated toward zero (the rounding Rust's `/` uses),
//! and the square root is the exact floor square root of the scaled operand.

use vstd::prelude::*;

verus! {

use vstd::arithmetic::div_mod::lemma_div_is_ordered;
use vstd::arithmetic::div_mod::lemma_div_is_ordered_by_denominator;
use vstd::arithmetic::div_mod::lemma_div_multiples_vanish;
use vstd::arithmetic::div_mod::lemma_div_pos_is_pos;

/// Number of fixed-point steps per unit: a scalar `v` stands for `v / SCALE`.
pub const SCALE: i64 = 1_000_000;

/// Quotient of `a` by `b`, truncated toward zero, for a positive divisor.
/// This is what Rust's `/` computes on `i64` operands when `b > 0`.
pub open spec fn tdiv(a: int, b: int) -> int
    recommends
        b > 0,
{
    if a >= 0 {
        a / b
    } else {
        -((-a) / b)
    }
}

/// Quotient of `a` by `b`, truncated toward zero, for any nonzero divisor.
pub open spec fn qdiv(a: int, b: int) -> int
    recommends
        b != 0,
{
    if b >= 0 {
        tdiv(a, b)
    } else {
        tdiv(-a, -b)
    }
}

/// Product of two fixed-point scalars, scaled back down.
pub open spec fn fx_mul(a: int, b: int) -> int {
    tdiv(a * b, SCALE as int)
}

/// Quotient of two fixed-point scalars, scaled back up before dividing.
pub open spec fn fx_div(a: int, b: int) -> int
    recommends
        b != 0,
{
    qdiv(a * SCALE, b)
}

/// Floor of the square root of a natural number, defined by counting up.
pub open spec fn sqrt_floor(x: nat) -> nat
    decreases x,
{
    if x == 0 {
        0
    } else {
        let s = sqrt_floor((x - 1) as nat);
        if (s + 1) * (s + 1) <= x {
            s + 1
        } else {
            s
        }
    }
}

/// Square root of a nonnegative fixed-point scalar: `x` stands for `x / SCALE`,
/// and `sqrt(x / SCALE) == sqrt(x * SCALE) / SCALE`, so the result is the floor
/// square root of `x * SCALE`.
pub open spec fn fx_sqrt(x: int) -> int
    recommends
        x >= 0,
{
    sqrt_floor((x * SCALE) as nat) as int
}

/// The floor square root is characterized by the two bounds
/// `r * r <= x < (r + 1) * (r + 1)`.
pub proof fn lemma_sqrt_floor_bounds(x: nat)
    ensures
        sqrt_floor(x) * sqrt_floor(x) <= x,
        x < (sqrt_floor(x) + 1) * (sqrt_floor(x) + 1),
    decreases x,
{
    let r = sqrt_floor(x);
    if x > 0 {
        lemma_sqrt_floor_bounds((x - 1) as nat);
        let s = sqrt_floor((x - 1) as nat);
        assert(r == if (s + 1) * (s + 1) <= x {
            s + 1
        } else {
            s
        });
        if (s + 1) * (s + 1) <= x {
            assert(x <= (s + 1) * (s + 1));
            assert(r * r <= x && x < (r + 1) * (r + 1)) by (nonlinear_arith)
                requires
                    r == s + 1,
                    (s + 1) * (s + 1) <= x,
                    x <= (s + 1) * (s + 1),
                    s >= 0,
            ;
        } else {
            assert(r * r <= x && x < (r + 1) * (r + 1)) by (nonlinear_arith)
                requires
                    r == s,
                    s * s <= x - 1,
                    x < (s + 1) * (s + 1),
            ;
        }
    } else {
        assert(r == 0);
        assert(r * r <= x && x < (r + 1) * (r + 1)) by (nonlinear_arith)
            requires
                r == 0,
                x == 0,
        ;
    }
}

/// No two distinct naturals satisfy the floor-square-root bounds for the
/// same operand, so the bounds pin `sqrt_floor` down exactly.
pub proof fn lemma_sqrt_floor_unique(x: nat, r: nat)
    requires
        r * r <= x,
        x < (r + 1) * (r + 1),
    ensures
        r == sqrt_floor(x),
{
    let s = sqrt_floor(x);
    lemma_sqrt_floor_bounds(x);
    if r < s {
        assert((r + 1) * (r + 1) <= s * s) by (nonlinear_arith)
            requires
                r + 1 <= s,
        ;
    }
    if s < r {
        assert((s + 1) * (s + 1) <= r * r) by (nonlinear_arith)
            requires
                s + 1 <= r,
        ;
    }
}

/// Truncated division by a positive divisor is monotone in the dividend.
pub proof fn lemma_tdiv_mono(a1: int, a2: int, b: int)
    requires
        a1 <= a2,
        b > 0,
    ensures
        tdiv(a1, b) <= tdiv(a2, b),
{
    if a1 >= 0 {
        lemma_div_is_ordered(a1, a2, b);
    } else if a2 < 0 {
        lemma_div_is_ordered(-a2, -a1, b);
    } else {
        lemma_div_pos_is_pos(-a1, b);
        lemma_div_pos_is_pos(a2, b);
    }
}

/// A dividend bounded in magnitude by `m` gives a truncated quotient bounded
/// in magnitude by `tdiv(m, b)`.
pub proof fn lemma_tdiv_range(a: int, b: int, m: int)
    requires
        -m <= a <= m,
        0 <= m,
        b > 0,
    ensures
        -tdiv(m, b) <= tdiv(a, b) <= tdiv(m, b),
{
    lemma_tdiv_mono(a, m, b);
    lemma_tdiv_mono(-m, a, b);
}

/// Dividing a dividend of magnitude at most `m` by a divisor of at least `k`
/// gives a quotient of magnitude at most `tdiv(m, k)`.
pub proof fn lemma_tdiv_shrink(a: int, b: int, m: int, k: int)
    requires
        -m <= a <= m,
        0 <= m,
        0 < k <= b,
    ensures
        -tdiv(m, k) <= tdiv(a, b) <= tdiv(m, k),
{
    lemma_tdiv_range(a, b, m);
    lemma_div_is_ordered_by_denominator(m, k, b);
}

/// Magnitude of an integer.
pub open spec fn iabs(x: int) -> int {
    if x < 0 {
        -x
    } else {
        x
    }
}

/// For a positive divisor, the magnitude `q` of the truncated quotient
/// satisfies `b * q <= |a| < b * (q + 1)`.
pub proof fn lemma_tdiv_mul_bounds(a: int, b: int)
    requires
        b > 0,
    ensures
        b * iabs(tdiv(a, b)) <= iabs(a),
        iabs(a) < b * (iabs(tdiv(a, b)) + 1),
{
    let m = iabs(a);
    let q = m / b;
    lemma_div_pos_is_pos(m, b);
    vstd::arithmetic::div_mod::lemma_fundamental_div_mod(m, b);
    assert(iabs(tdiv(a, b)) == q);
    assert(b * (q + 1) == b * q + b) by (nonlinear_arith);
}

/// Multiplying by a positive divisor and truncating-dividing by it again
/// gives the scalar back.
pub proof fn lemma_tdiv_cancel(x: int, d: int)
    requires
        d > 0,
    ensures
        tdiv(x * d, d) == x,
{
    assert(x >= 0 ==> x * d >= 0 && x * d == d * x) by (nonlinear_arith)
        requires
            d > 0,
    ;
    assert(x < 0 ==> x * d < 0 && -(x * d) == d * (-x)) by (nonlinear_arith)
        requires
            d > 0,
    ;
    if x >= 0 {
        lemma_div_multiples_vanish(x, d);
    } else {
        lemma_div_multiples_vanish(-x, d);
    }
}

/// A fixed-point product of scalars bounded by `ma` and `mb` in magnitude is
/// bounded by the scaled-down product of the bounds.
pub proof fn lemma_fx_mul_range(a: int, b: int, ma: int, mb: int)
    requires
        -ma <= a <= ma,
        -mb <= b <= mb,
        0 <= ma,
        0 <= mb,
    ensures
        -(ma * mb) <= a * b <= ma * mb,
        -tdiv(ma * mb, SCALE as int) <= fx_mul(a, b) <= tdiv(ma * mb, SCALE as int),
{
    assert(-(ma * mb) <= a * b <= ma * mb) by (nonlinear_arith)
        requires
            -ma <= a <= ma,
            -mb <= b <= mb,
            0 <= ma,
            0 <= mb,
    ;
    lemma_tdiv_range(a * b, SCALE as int, ma * mb);
}

/// Truncating quotient of `a` by a positive `b`, as Rust's `/` computes it.
pub fn div_trunc(a: i64, b: i64) -> (r: i64)
    requires
        b > 0,
    ensures
        r == tdiv(a as int, b as int),
{
    a / b
}

/// Truncating quotient of `a` by any nonzero `b`.  The sign of a negative
/// divisor is moved onto the dividend so that the machine division itself
/// always sees a positive divisor.
pub fn div_signed(a: i64, b: i64) -> (r: i64)
    requires
        b != 0,
        a > i64::MIN,
        b > i64::MIN,
    ensures
        r == qdiv(a as int, b as int),
{
    if b < 0 {
        (-a) / (-b)
    } else {
        a / b
    }
}

/// Fixed-point product: multiply exactly, then scale back down.
pub fn mul_fixed(a: i64, b: i64) -> (r: i64)
    requires
        i64::MIN < a * b <= i64::MAX,
    ensures
        r == fx_mul(a as int, b as int),
{
    let p: i64 = a * b;
    p / SCALE
}

/// Fixed-point quotient: scale the dividend up, then divide.
pub fn div_fixed(a: i64, b: i64) -> (r: i64)
    requires
        b != 0,
        b > i64::MIN,
        i64::MIN < a * SCALE <= i64::MAX,
    ensures
        r == fx_div(a as int, b as int),
{
    div_signed(a * SCALE, b)
}

/// Floor square root of a natural number below `2^62`, by bisection.
pub fn isqrt(x: u64) -> (r: u64)
    requires
        x < 0x4000_0000_0000_0000,
    ensures
        r == sqrt_floor(x as nat),
        r < 0x8000_0000,
{
    let mut lo: u64 = 0;
    let mut hi: u64 = 0x8000_0000;
    while lo + 1 < hi
        invariant
            lo < hi,
            hi <= 0x8000_0000,
            lo * lo <= x,
            x < hi * hi,
        decreases hi - lo,
    {
        let mid: u64 = lo + (hi - lo) / 2;
        proof {
            assert(mid * mid <= 0x4000_0000_0000_0000) by (nonlinear_arith)
                requires
                    mid <= 0x8000_0000u64,
            ;
        }
        if mid * mid <= x {
            lo = mid;
        } else {
            hi = mid;
        }
    }
    proof {
        lemma_sqrt_floor_unique(x as nat, lo as nat);
    }
    lo
}

/// Square root of a nonnegative fixed-point scalar.
pub fn sqrt_fixed(x: i64) -> (r: i64)
    requires
        0 <= x <= 4_000_000_000_000,
    ensures
        r == fx_sqrt(x as int),
        0 <= r < 0x8000_0000,
        r * r <= x * SCALE,
        x * SCALE < (r + 1) * (r + 1),
{
    let xs: u64 = (x as u64) * (SCALE as u64);
    assert(xs == x * SCALE);
    assert(xs < 0x4000_0000_0000_0000);
    let r: u64 = isqrt(xs);
    proof {
        lemma_sqrt_floor_bounds(xs as nat);
    }
    r as i64
}

} // verus!
