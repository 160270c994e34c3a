//! Three-component vectors over fixed-point scalars.
//!
//! [`Vector3`] is the one value type of the crate; it serves both as a free
//! vector and as a point in space ([`Point3`] is a semantic alias, not a
//! distinct type).  Its mathematical model is [`Vec3i`], the same three
//! components as unbounded integers, and every operation's contract states
//! the exact fixed-point result over that model.

use vstd::prelude::*;

verus! {

use crate::fixed::SCALE;
use crate::fixed::div_fixed;
use crate::fixed::div_trunc;
use crate::fixed::fx_div;
use crate::fixed::fx_mul;
use crate::fixed::fx_sqrt;
use crate::fixed::iabs;
use crate::fixed::lemma_sqrt_floor_bounds;
use crate::fixed::lemma_tdiv_mul_bounds;
use crate::fixed::lemma_tdiv_range;
use crate::fixed::lemma_tdiv_shrink;
use crate::fixed::sqrt_fixed;
use crate::fixed::tdiv;
use vstd::arithmetic::div_mod::lemma_div_pos_is_pos;
use vstd::arithmetic::div_mod::lemma_fundamental_div_mod;

/// Largest component magnitude accepted by the compound vector operations
/// (dot, cross, length, normalization): one hundred units.  The bound keeps
/// every intermediate product inside `i64`.
pub const OP_BOUND: i64 = 100_000_000;

/// Magnitude bound on a dot product of two `OP_BOUND`-bounded vectors.
pub const DOT_BOUND: i64 = 30_000_000_000;

/// The mathematical model of a vector: its three fixed-point components as
/// unbounded integers.
pub struct Vec3i {
    pub x: int,
    pub y: int,
    pub z: int,
}

/// A vector or point: three fixed-point components.
#[derive(Clone, Copy, Debug, PartialEq, Eq, Structural)]
pub struct Vector3 {
    pub e0: i64,
    pub e1: i64,
    pub e2: i64,
}

/// A point in space; an alias kept for geometric clarity, with no invariant
/// of its own.
pub type Point3 = Vector3;

impl View for Vector3 {
    type V = Vec3i;

    open spec fn view(&self) -> Vec3i {
        Vec3i { x: self.e0 as int, y: self.e1 as int, z: self.e2 as int }
    }
}

/// The zero vector: all three components zero.
pub open spec fn v_zero() -> Vec3i {
    Vec3i { x: 0, y: 0, z: 0 }
}

/// All three components of `v` are bounded by `m` in magnitude.
pub open spec fn within(v: Vec3i, m: int) -> bool {
    &&& -m <= v.x <= m
    &&& -m <= v.y <= m
    &&& -m <= v.z <= m
}

/// Component-wise sum.
pub open spec fn v_add(a: Vec3i, b: Vec3i) -> Vec3i {
    Vec3i { x: a.x + b.x, y: a.y + b.y, z: a.z + b.z }
}

/// Component-wise difference.
pub open spec fn v_sub(a: Vec3i, b: Vec3i) -> Vec3i {
    Vec3i { x: a.x - b.x, y: a.y - b.y, z: a.z - b.z }
}

/// Component-wise negation.
pub open spec fn v_neg(a: Vec3i) -> Vec3i {
    Vec3i { x: -a.x, y: -a.y, z: -a.z }
}

/// Scalar multiple: every component times the fixed-point scalar `t`.
pub open spec fn v_scale(t: int, a: Vec3i) -> Vec3i {
    Vec3i { x: fx_mul(t, a.x), y: fx_mul(t, a.y), z: fx_mul(t, a.z) }
}

/// Component-wise (Hadamard) product.
pub open spec fn v_mul(a: Vec3i, b: Vec3i) -> Vec3i {
    Vec3i { x: fx_mul(a.x, b.x), y: fx_mul(a.y, b.y), z: fx_mul(a.z, b.z) }
}

/// Scalar quotient: every component divided by the fixed-point scalar `t`.
pub open spec fn v_div(a: Vec3i, t: int) -> Vec3i
    recommends
        t != 0,
{
    Vec3i { x: fx_div(a.x, t), y: fx_div(a.y, t), z: fx_div(a.z, t) }
}

/// Dot product: the exact sum of the component products, scaled down once.
pub open spec fn v_dot(a: Vec3i, b: Vec3i) -> int {
    tdiv(a.x * b.x + a.y * b.y + a.z * b.z, SCALE as int)
}

/// Right-handed cross product, each component scaled down once.
pub open spec fn v_cross(a: Vec3i, b: Vec3i) -> Vec3i {
    Vec3i {
        x: tdiv(a.y * b.z - a.z * b.y, SCALE as int),
        y: tdiv(a.z * b.x - a.x * b.z, SCALE as int),
        z: tdiv(a.x * b.y - a.y * b.x, SCALE as int),
    }
}

/// Squared length: the dot product of a vector with itself.
pub open spec fn v_len_sq(a: Vec3i) -> int {
    v_dot(a, a)
}

/// Length: the fixed-point square root of the squared length.
pub open spec fn v_len(a: Vec3i) -> int {
    fx_sqrt(v_len_sq(a))
}

/// Unit vector: the vector divided by its own length.
pub open spec fn v_unit(a: Vec3i) -> Vec3i
    recommends
        v_len(a) > 0,
{
    v_div(a, v_len(a))
}

/// A dot product of vectors bounded by `ma` and `mb` in magnitude is bounded
/// by the scaled-down triple product of the bounds.
pub proof fn lemma_dot_range(a: Vec3i, b: Vec3i, ma: int, mb: int)
    requires
        within(a, ma),
        within(b, mb),
        0 <= ma,
        0 <= mb,
    ensures
        -tdiv(3 * ma * mb, SCALE as int) <= v_dot(a, b) <= tdiv(3 * ma * mb, SCALE as int),
{
    assert(-(ma * mb) <= a.x * b.x <= ma * mb && -(ma * mb) <= a.y * b.y <= ma * mb && -(ma * mb)
        <= a.z * b.z <= ma * mb) by (nonlinear_arith)
        requires
            within(a, ma),
            within(b, mb),
            0 <= ma,
            0 <= mb,
    ;
    assert(3 * ma * mb == (ma * mb) + (ma * mb) + (ma * mb)) by (nonlinear_arith);
    lemma_tdiv_range(a.x * b.x + a.y * b.y + a.z * b.z, SCALE as int, 3 * ma * mb);
}

/// The dot product is symmetric in its two arguments.
pub proof fn lemma_dot_symmetric(a: Vec3i, b: Vec3i)
    ensures
        v_dot(a, b) == v_dot(b, a),
{
}

/// Swapping the arguments of the cross product negates every component.
pub proof fn lemma_cross_antisymmetric(a: Vec3i, b: Vec3i)
    ensures
        v_cross(a, b) == v_neg(v_cross(b, a)),
{
}

/// A vector with positive squared length has length at least one
/// thousandth of a unit, the smallest representable positive square root.
pub proof fn lemma_len_positive(a: Vec3i)
    requires
        v_len_sq(a) >= 1,
    ensures
        v_len(a) >= 1000,
{
    let s = v_len_sq(a);
    let r = crate::fixed::sqrt_floor((s * SCALE) as nat);
    lemma_sqrt_floor_bounds((s * SCALE) as nat);
    assert(s * SCALE >= SCALE);
    assert(r >= 1000) by (nonlinear_arith)
        requires
            (r + 1) * (r + 1) > 1_000_000,
            r >= 0,
    ;
}

/// No component of a unit vector strays far past one: below 1.416 units
/// for any normalizable bounded vector (the square root of two, reached in
/// the worst truncation case near the resolution floor), and below
/// 1.000002 units once the vector itself is at least one unit long.
pub proof fn lemma_unit_component_bound(a: Vec3i)
    requires
        within(a, OP_BOUND as int),
        v_len_sq(a) >= 1,
    ensures
        within(v_unit(a), 1_416_000),
        v_len_sq(a) >= SCALE as int ==> within(v_unit(a), SCALE as int + 2),
{
    let s: int = SCALE as int;
    let s2 = a.x * a.x + a.y * a.y + a.z * a.z;
    lemma_squares_nonneg(a);
    let ls = v_len_sq(a);
    lemma_fundamental_div_mod(s2, s);
    assert(ls * s <= s2 < ls * s + s);
    let len = v_len(a);
    lemma_sqrt_floor_bounds((ls * s) as nat);
    assert(len * len <= ls * s < (len + 1) * (len + 1));
    lemma_len_positive(a);
    lemma_unit_axis_bound(a.x, len, s2, ls);
    lemma_unit_axis_bound(a.y, len, s2, ls);
    lemma_unit_axis_bound(a.z, len, s2, ls);
}

/// One axis of the bound above: `len * |u| <= |c| * SCALE` and
/// `c * c <= s2 < (ls + 1) * SCALE` squeeze the unit component `u`.
proof fn lemma_unit_axis_bound(c: int, len: int, s2: int, ls: int)
    requires
        1 <= ls,
        1000 <= len,
        len * len <= ls * 1_000_000,
        ls * 1_000_000 < (len + 1) * (len + 1),
        c * c <= s2,
        s2 < ls * 1_000_000 + 1_000_000,
    ensures
        -1_416_000 <= tdiv(c * 1_000_000, len) <= 1_416_000,
        ls >= 1_000_000 ==> -1_000_002 <= tdiv(c * 1_000_000, len) <= 1_000_002,
{
    let u = iabs(tdiv(c * 1_000_000, len));
    lemma_tdiv_mul_bounds(c * 1_000_000, len);
    assert(len * u <= iabs(c * 1_000_000));
    assert(iabs(c * 1_000_000) == iabs(c) * 1_000_000);
    assert(iabs(c) * iabs(c) == c * c && 0 <= len * u) by (nonlinear_arith)
        requires
            len >= 1000,
            u >= 0,
    ;
    assert((len * u) * (len * u) <= (c * c) * 1_000_000_000_000) by (nonlinear_arith)
        requires
            0 <= len * u <= iabs(c) * 1_000_000,
            iabs(c) * iabs(c) == c * c,
    ;
    assert(s2 < 2 * (ls * 1_000_000)) by (nonlinear_arith)
        requires
            s2 < ls * 1_000_000 + 1_000_000,
            1 <= ls,
    ;
    assert((c * c) * 1_000_000_000_000 < 2 * ((len + 1) * (len + 1)) * 1_000_000_000_000)
        by (nonlinear_arith)
        requires
            c * c <= s2,
            s2 < 2 * (ls * 1_000_000),
            ls * 1_000_000 < (len + 1) * (len + 1),
    ;
    assert(u <= 1_416_000) by (nonlinear_arith)
        requires
            (len * u) * (len * u) < 2 * ((len + 1) * (len + 1)) * 1_000_000_000_000,
            len >= 1000,
            u >= 0,
    ;
    if ls >= 1_000_000 {
        assert(len >= 999_999) by (nonlinear_arith)
            requires
                (len + 1) * (len + 1) > ls * 1_000_000,
                ls >= 1_000_000,
                len >= 0,
        ;
        assert((c * c) * 1_000_000_000_000 < ((len + 1) * (len + 1) + 1_000_000)
            * 1_000_000_000_000) by (nonlinear_arith)
            requires
                c * c <= s2,
                s2 < ls * 1_000_000 + 1_000_000,
                ls * 1_000_000 < (len + 1) * (len + 1),
        ;
        assert(u <= 1_000_002) by (nonlinear_arith)
            requires
                (len * u) * (len * u) < ((len + 1) * (len + 1) + 1_000_000) * 1_000_000_000_000,
                len >= 999_999,
                u >= 0,
        ;
    }
}

/// Normalizing keeps length one, up to the fixed-point resolution: for any
/// bounded vector at least one unit long, the length of its unit vector is
/// within 400 millionths of one.  (Vectors much shorter than a unit lose
/// too much to truncation for any such bound: normalizing (0.0012, 0.0005, 0)
/// gives a vector of length 1.3.)
pub proof fn lemma_unit_length_near_one(a: Vec3i)
    requires
        within(a, OP_BOUND as int),
        v_len_sq(a) >= SCALE as int,
    ensures
        SCALE as int - 400 <= v_len(v_unit(a)) <= SCALE as int + 2,
{
    let s: int = SCALE as int;
    let s2 = a.x * a.x + a.y * a.y + a.z * a.z;
    lemma_squares_nonneg(a);
    let ls = v_len_sq(a);
    lemma_fundamental_div_mod(s2, s);
    assert(ls * s <= s2 < ls * s + s);
    let len = v_len(a);
    lemma_sqrt_floor_bounds((ls * s) as nat);
    assert(len * len <= ls * s < (len + 1) * (len + 1));
    assert(len >= s) by (nonlinear_arith)
        requires
            (len + 1) * (len + 1) > ls * s,
            ls * s >= 1_000_000_000_000,
            len >= 0,
            s == 1_000_000,
    ;
    let u = v_unit(a);
    assert(u.x == tdiv(a.x * s, len) && u.y == tdiv(a.y * s, len) && u.z == tdiv(a.z * s, len));
    lemma_tdiv_mul_bounds(a.x * s, len);
    lemma_tdiv_mul_bounds(a.y * s, len);
    lemma_tdiv_mul_bounds(a.z * s, len);
    let ux = iabs(u.x);
    let uy = iabs(u.y);
    let uz = iabs(u.z);
    assert(iabs(a.x * s) == iabs(a.x) * s && iabs(a.y * s) == iabs(a.y) * s && iabs(a.z * s)
        == iabs(a.z) * s);
    assert(len * ux <= iabs(a.x) * s < len * (ux + 1));
    assert(len * uy <= iabs(a.y) * s < len * (uy + 1));
    assert(len * uz <= iabs(a.z) * s < len * (uz + 1));
    // squared component bounds, scaled through by len * len
    assert(len * len * (u.x * u.x) <= s * s * (a.x * a.x) && s * s * (a.x * a.x) < len * len * (u.x
        * u.x) + 2 * len * (len * ux) + len * len) by (nonlinear_arith)
        requires
            0 <= len * ux <= iabs(a.x) * s < len * (ux + 1),
            ux == iabs(u.x),
            0 <= ux,
            len > 0,
    ;
    assert(len * len * (u.y * u.y) <= s * s * (a.y * a.y) && s * s * (a.y * a.y) < len * len * (u.y
        * u.y) + 2 * len * (len * uy) + len * len) by (nonlinear_arith)
        requires
            0 <= len * uy <= iabs(a.y) * s < len * (uy + 1),
            uy == iabs(u.y),
            0 <= uy,
            len > 0,
    ;
    assert(len * len * (u.z * u.z) <= s * s * (a.z * a.z) && s * s * (a.z * a.z) < len * len * (u.z
        * u.z) + 2 * len * (len * uz) + len * len) by (nonlinear_arith)
        requires
            0 <= len * uz <= iabs(a.z) * s < len * (uz + 1),
            uz == iabs(u.z),
            0 <= uz,
            len > 0,
    ;
    let su = u.x * u.x + u.y * u.y + u.z * u.z;
    assert(len * len * su == len * len * (u.x * u.x) + len * len * (u.y * u.y) + len * len * (u.z
        * u.z) && s * s * s2 == s * s * (a.x * a.x) + s * s * (a.y * a.y) + s * s * (a.z * a.z))
        by (nonlinear_arith)
        requires
            su == u.x * u.x + u.y * u.y + u.z * u.z,
            s2 == a.x * a.x + a.y * a.y + a.z * a.z,
    ;
    // the three magnitudes together stay below three times the bound
    assert(len * ux + len * uy + len * uz <= 300_000_000_000_000);
    assert(2 * len * (len * ux) + 2 * len * (len * uy) + 2 * len * (len * uz)
        <= 600_000_000_000_000 * len) by (nonlinear_arith)
        requires
            len * ux + len * uy + len * uz <= 300_000_000_000_000,
            0 <= len * ux,
            0 <= len * uy,
            0 <= len * uz,
            len >= 0,
    ;
    assert(len * len * su <= s * s * s2);
    assert(s * s * s2 < len * len * su + 600_000_000_000_000 * len + 3 * (len * len));
    // the squared length of the unit vector, and its square root
    lemma_squares_nonneg(u);
    let lsu = v_len_sq(u);
    lemma_fundamental_div_mod(su, s);
    assert(lsu * s <= su < lsu * s + s);
    let lenu = v_len(u);
    lemma_sqrt_floor_bounds((lsu * s) as nat);
    assert(0 <= lenu && lenu * lenu <= lsu * s < (lenu + 1) * (lenu + 1));
    // upper bound: len^2 * lenu^2 <= len^2 * su <= s^2 * s2 < s^2 (len+1)^2 + s^3
    assert(len * len * (lenu * lenu) <= len * len * su) by (nonlinear_arith)
        requires
            lenu * lenu <= lsu * s,
            lsu * s <= su,
            len >= 0,
    ;
    assert(s * s * s2 < 1_000_000_000_000 * ((len + 1) * (len + 1)) + 1_000_000_000_000_000_000)
        by (nonlinear_arith)
        requires
            s2 < ls * s + s,
            ls * s < (len + 1) * (len + 1),
            s == 1_000_000,
    ;
    assert(lenu <= s + 2) by (nonlinear_arith)
        requires
            len * len * (lenu * lenu) < 1_000_000_000_000 * ((len + 1) * (len + 1))
                + 1_000_000_000_000_000_000,
            len >= 1_000_000,
            lenu >= 0,
            s == 1_000_000,
    ;
    // lower bound: len^2 (lenu+1)^2 > len^2 su - s len^2 >= s^2 s2 - error terms
    assert(len * len * ((lenu + 1) * (lenu + 1)) > len * len * su - s * (len * len))
        by (nonlinear_arith)
        requires
            (lenu + 1) * (lenu + 1) > lsu * s,
            lsu * s > su - s,
            len > 0,
            s > 0,
    ;
    assert(s * s * s2 >= 1_000_000_000_000 * (len * len)) by (nonlinear_arith)
        requires
            ls * s >= len * len,
            s2 >= ls * s,
            s == 1_000_000,
    ;
    assert(lenu >= s - 400) by (nonlinear_arith)
        requires
            len * len * ((lenu + 1) * (lenu + 1)) > 1_000_000_000_000 * (len * len)
                - 600_000_000_000_000 * len - 3 * (len * len) - 1_000_000 * (len * len),
            len >= 1_000_000,
            lenu >= 0,
            s == 1_000_000,
    ;
}

impl Vector3 {
    /// Builds the vector with the three given fixed-point components.
    pub fn new(e0: i64, e1: i64, e2: i64) -> (r: Self)
        ensures
            r@ == (Vec3i { x: e0 as int, y: e1 as int, z: e2 as int }),
    {
        Self { e0, e1, e2 }
    }

    /// The origin: all three components zero.
    pub fn zero() -> (r: Self)
        ensures
            r@ == (Vec3i { x: 0, y: 0, z: 0 }),
    {
        Self { e0: 0, e1: 0, e2: 0 }
    }

    /// First component.
    pub fn x(&self) -> (r: i64)
        ensures
            r == self@.x,
    {
        self.e0
    }

    /// Second component.
    pub fn y(&self) -> (r: i64)
        ensures
            r == self@.y,
    {
        self.e1
    }

    /// Third component.
    pub fn z(&self) -> (r: i64)
        ensures
            r == self@.z,
    {
        self.e2
    }

    /// Indexed component access: positions 0, 1, 2.
    pub fn component(&self, i: usize) -> (r: i64)
        requires
            i < 3,
        ensures
            i == 0 ==> r == self@.x,
            i == 1 ==> r == self@.y,
            i == 2 ==> r == self@.z,
    {
        if i == 0 {
            self.e0
        } else if i == 1 {
            self.e1
        } else {
            self.e2
        }
    }

    /// Indexed component update: positions 0, 1, 2; the other two
    /// components keep their values.
    pub fn set_component(&mut self, i: usize, v: i64)
        requires
            i < 3,
        ensures
            i == 0 ==> final(self)@ == (Vec3i { x: v as int, ..old(self)@ }),
            i == 1 ==> final(self)@ == (Vec3i { y: v as int, ..old(self)@ }),
            i == 2 ==> final(self)@ == (Vec3i { z: v as int, ..old(self)@ }),
    {
        if i == 0 {
            self.e0 = v;
        } else if i == 1 {
            self.e1 = v;
        } else {
            self.e2 = v;
        }
    }

    /// Tests that every component is bounded by `m` in magnitude.
    pub fn within_bound(&self, m: i64) -> (b: bool)
        requires
            m >= 0,
        ensures
            b == within(self@, m as int),
    {
        -m <= self.e0 && self.e0 <= m && -m <= self.e1 && self.e1 <= m && -m <= self.e2
            && self.e2 <= m
    }

    /// Component-wise sum.
    pub fn add(self, v: Self) -> (r: Self)
        requires
            i64::MIN <= self@.x + v@.x <= i64::MAX,
            i64::MIN <= self@.y + v@.y <= i64::MAX,
            i64::MIN <= self@.z + v@.z <= i64::MAX,
        ensures
            r@ == v_add(self@, v@),
    {
        Self { e0: self.e0 + v.e0, e1: self.e1 + v.e1, e2: self.e2 + v.e2 }
    }

    /// Component-wise difference.
    pub fn sub(self, v: Self) -> (r: Self)
        requires
            i64::MIN <= self@.x - v@.x <= i64::MAX,
            i64::MIN <= self@.y - v@.y <= i64::MAX,
            i64::MIN <= self@.z - v@.z <= i64::MAX,
        ensures
            r@ == v_sub(self@, v@),
    {
        Self { e0: self.e0 - v.e0, e1: self.e1 - v.e1, e2: self.e2 - v.e2 }
    }

    /// Component-wise negation.
    pub fn neg(self) -> (r: Self)
        requires
            self@.x > i64::MIN,
            self@.y > i64::MIN,
            self@.z > i64::MIN,
        ensures
            r@ == v_neg(self@),
    {
        Self { e0: -self.e0, e1: -self.e1, e2: -self.e2 }
    }

    /// Scalar multiple: every component times the fixed-point scalar `t`.
    pub fn scale(self, t: i64) -> (r: Self)
        requires
            i64::MIN < t * self@.x <= i64::MAX,
            i64::MIN < t * self@.y <= i64::MAX,
            i64::MIN < t * self@.z <= i64::MAX,
        ensures
            r@ == v_scale(t as int, self@),
    {
        Self {
            e0: crate::fixed::mul_fixed(t, self.e0),
            e1: crate::fixed::mul_fixed(t, self.e1),
            e2: crate::fixed::mul_fixed(t, self.e2),
        }
    }

    /// Component-wise (Hadamard) product.
    pub fn mul(self, v: Self) -> (r: Self)
        requires
            i64::MIN < self@.x * v@.x <= i64::MAX,
            i64::MIN < self@.y * v@.y <= i64::MAX,
            i64::MIN < self@.z * v@.z <= i64::MAX,
        ensures
            r@ == v_mul(self@, v@),
    {
        Self {
            e0: crate::fixed::mul_fixed(self.e0, v.e0),
            e1: crate::fixed::mul_fixed(self.e1, v.e1),
            e2: crate::fixed::mul_fixed(self.e2, v.e2),
        }
    }

    /// Scalar quotient: every component divided by the fixed-point scalar
    /// `t`, which the caller must keep nonzero.
    pub fn div(self, t: i64) -> (r: Self)
        requires
            t != 0,
            t > i64::MIN,
            i64::MIN < self@.x * SCALE <= i64::MAX,
            i64::MIN < self@.y * SCALE <= i64::MAX,
            i64::MIN < self@.z * SCALE <= i64::MAX,
        ensures
            r@ == v_div(self@, t as int),
    {
        Self {
            e0: div_fixed(self.e0, t),
            e1: div_fixed(self.e1, t),
            e2: div_fixed(self.e2, t),
        }
    }

    /// Compound assignment form of [`Vector3::add`].
    pub fn add_assign(&mut self, v: Self)
        requires
            i64::MIN <= old(self)@.x + v@.x <= i64::MAX,
            i64::MIN <= old(self)@.y + v@.y <= i64::MAX,
            i64::MIN <= old(self)@.z + v@.z <= i64::MAX,
        ensures
            final(self)@ == v_add(old(self)@, v@),
    {
        *self = self.add(v);
    }

    /// Compound assignment form of [`Vector3::scale`].
    pub fn mul_assign(&mut self, t: i64)
        requires
            i64::MIN < t * old(self)@.x <= i64::MAX,
            i64::MIN < t * old(self)@.y <= i64::MAX,
            i64::MIN < t * old(self)@.z <= i64::MAX,
        ensures
            final(self)@ == v_scale(t as int, old(self)@),
    {
        *self = self.scale(t);
    }

    /// Compound assignment form of [`Vector3::div`].
    pub fn div_assign(&mut self, t: i64)
        requires
            t != 0,
            t > i64::MIN,
            i64::MIN < old(self)@.x * SCALE <= i64::MAX,
            i64::MIN < old(self)@.y * SCALE <= i64::MAX,
            i64::MIN < old(self)@.z * SCALE <= i64::MAX,
        ensures
            final(self)@ == v_div(old(self)@, t as int),
    {
        *self = self.div(t);
    }

    /// Dot product.
    pub fn dot(&self, other: &Self) -> (r: i64)
        requires
            within(self@, OP_BOUND as int),
            within(other@, OP_BOUND as int),
        ensures
            r == v_dot(self@, other@),
            -DOT_BOUND <= r <= DOT_BOUND,
    {
        proof {
            lemma_products_bounded(self@, other@);
            lemma_tdiv_range(
                self@.x * other@.x + self@.y * other@.y + self@.z * other@.z,
                SCALE as int,
                30_000_000_000_000_000,
            );
        }
        let p: i64 = self.e0 * other.e0 + self.e1 * other.e1 + self.e2 * other.e2;
        div_trunc(p, SCALE)
    }

    /// Cross product.
    pub fn cross(&self, other: &Self) -> (r: Self)
        requires
            within(self@, OP_BOUND as int),
            within(other@, OP_BOUND as int),
        ensures
            r@ == v_cross(self@, other@),
    {
        proof {
            lemma_products_bounded(self@, other@);
        }
        Self {
            e0: div_trunc(self.e1 * other.e2 - self.e2 * other.e1, SCALE),
            e1: div_trunc(self.e2 * other.e0 - self.e0 * other.e2, SCALE),
            e2: div_trunc(self.e0 * other.e1 - self.e1 * other.e0, SCALE),
        }
    }

    /// Squared length.
    pub fn length_squared(&self) -> (r: i64)
        requires
            within(self@, OP_BOUND as int),
        ensures
            r == v_len_sq(self@),
            0 <= r <= DOT_BOUND,
    {
        proof {
            lemma_squares_nonneg(self@);
            lemma_div_pos_is_pos(
                self@.x * self@.x + self@.y * self@.y + self@.z * self@.z,
                SCALE as int,
            );
        }
        self.dot(self)
    }

    /// Length: the fixed-point square root of the squared length.
    pub fn length(&self) -> (r: i64)
        requires
            within(self@, OP_BOUND as int),
        ensures
            r == v_len(self@),
            0 <= r < 0x8000_0000,
    {
        let ls = self.length_squared();
        sqrt_fixed(ls)
    }

    /// The vector divided by its own length, which the caller must keep
    /// positive (a zero-length vector cannot be normalized).
    pub fn unit_vector(&self) -> (r: Vector3)
        requires
            within(self@, OP_BOUND as int),
            v_len_sq(self@) > 0,
        ensures
            r@ == v_unit(self@),
            within(r@, 100_000_000_000),
    {
        let len = self.length();
        proof {
            lemma_len_positive(self@);
            lemma_tdiv_shrink(self@.x * SCALE, len as int, 100_000_000_000_000, 1000);
            lemma_tdiv_shrink(self@.y * SCALE, len as int, 100_000_000_000_000, 1000);
            lemma_tdiv_shrink(self@.z * SCALE, len as int, 100_000_000_000_000, 1000);
        }
        self.div(len)
    }
}

/// Component products of two `OP_BOUND`-bounded vectors stay well inside
/// `i64`, as do sums and differences of two such products.
proof fn lemma_products_bounded(a: Vec3i, b: Vec3i)
    requires
        within(a, OP_BOUND as int),
        within(b, OP_BOUND as int),
    ensures
        -10_000_000_000_000_000 <= a.x * b.x <= 10_000_000_000_000_000,
        -10_000_000_000_000_000 <= a.y * b.y <= 10_000_000_000_000_000,
        -10_000_000_000_000_000 <= a.z * b.z <= 10_000_000_000_000_000,
        -10_000_000_000_000_000 <= a.y * b.z <= 10_000_000_000_000_000,
        -10_000_000_000_000_000 <= a.z * b.y <= 10_000_000_000_000_000,
        -10_000_000_000_000_000 <= a.z * b.x <= 10_000_000_000_000_000,
        -10_000_000_000_000_000 <= a.x * b.z <= 10_000_000_000_000_000,
        -10_000_000_000_000_000 <= a.x * b.y <= 10_000_000_000_000_000,
        -10_000_000_000_000_000 <= a.y * b.x <= 10_000_000_000_000_000,
{
    lemma_product_bound(a.x, b.x);
    lemma_product_bound(a.y, b.y);
    lemma_product_bound(a.z, b.z);
    lemma_product_bound(a.y, b.z);
    lemma_product_bound(a.z, b.y);
    lemma_product_bound(a.z, b.x);
    lemma_product_bound(a.x, b.z);
    lemma_product_bound(a.x, b.y);
    lemma_product_bound(a.y, b.x);
}

/// A product of two scalars bounded by `OP_BOUND` is bounded by its square.
proof fn lemma_product_bound(a: int, b: int)
    requires
        -(OP_BOUND as int) <= a <= OP_BOUND as int,
        -(OP_BOUND as int) <= b <= OP_BOUND as int,
    ensures
        -10_000_000_000_000_000 <= a * b <= 10_000_000_000_000_000,
{
    assert(-10_000_000_000_000_000 <= a * b <= 10_000_000_000_000_000) by (nonlinear_arith)
        requires
            -100_000_000 <= a <= 100_000_000,
            -100_000_000 <= b <= 100_000_000,
    ;
}

/// The three squared components of any vector are nonnegative.
proof fn lemma_squares_nonneg(a: Vec3i)
    ensures
        a.x * a.x >= 0,
        a.y * a.y >= 0,
        a.z * a.z >= 0,
{
    assert(a.x * a.x >= 0) by (nonlinear_arith);
    assert(a.y * a.y >= 0) by (nonlinear_arith);
    assert(a.z * a.z >= 0) by (nonlinear_arith);
}

} // verus!
