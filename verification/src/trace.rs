//! Sphere intersection and per-pixel color resolution.
//!
//! [`hit_sphere`] solves the ray-sphere quadratic analytically and returns
//! the nearer forward root, or a sentinel strictly below zero when the ray
//! misses.  [`ray_color`] maps a ray to a color: every forward hit is shaded
//! by its outward surface normal, a miss by a vertical background gradient.
//!
//! [`ray_color`] asks for a direction of at least unit squared length: a
//! shorter one would let the hit parameter, and with it the hit point, grow
//! beyond the coordinate range the fixed-point arithmetic supports, so the
//! bound stands openly in the precondition rather than silently in the
//! result.  Under it, [`lemma_hit_param_bounds`] proves every forward hit
//! point representable, and the only remaining fallback is the one the
//! vector algebra itself dictates: a computed normal of length zero cannot
//! be normalized (normalization assumes nonzero length), and that
//! degenerate hit gets the background gradient.

use vstd::prelude::*;

verus! {

use crate::color::Color;
use crate::fixed::SCALE;
use crate::fixed::div_fixed;
use crate::fixed::fx_div;
use crate::fixed::fx_mul;
use crate::fixed::fx_sqrt;
use crate::fixed::iabs;
use crate::fixed::lemma_fx_mul_range;
use crate::fixed::lemma_tdiv_mono;
use crate::fixed::lemma_tdiv_cancel;
use crate::fixed::lemma_tdiv_mul_bounds;
use crate::fixed::lemma_tdiv_range;
use crate::fixed::mul_fixed;
use crate::fixed::sqrt_fixed;
use crate::fixed::tdiv;
use crate::ray::Ray;
use crate::ray::v_at;
use crate::vec3::OP_BOUND;
use crate::vec3::Point3;
use crate::vec3::Vec3i;
use crate::vec3::Vector3;
use crate::vec3::lemma_dot_range;
use crate::vec3::v_add;
use crate::vec3::v_dot;
use crate::vec3::v_len_sq;
use crate::vec3::v_scale;
use crate::vec3::v_sub;
use crate::vec3::v_unit;
use crate::vec3::within;
use vstd::arithmetic::div_mod::lemma_fundamental_div_mod;

/// Largest component magnitude accepted for scene geometry and rays:
/// twelve units.  Keeps every quadratic intermediate inside `i64`.
pub const COORD_BOUND: i64 = 12_000_000;

/// The radius of the one sphere in the scene: half a unit.
pub const SPHERE_RADIUS: i64 = 500_000;

/// The center of the one sphere in the scene: one unit straight ahead,
/// at (0, 0, -1).
pub open spec fn sphere_center() -> Vec3i {
    Vec3i { x: 0, y: 0, z: -(SCALE as int) }
}

/// The nearest forward intersection parameter of a ray with a sphere, or
/// `-SCALE` (the fixed-point -1) when the discriminant is negative.
pub open spec fn s_hit_sphere(center: Vec3i, radius: int, origin: Vec3i, direction: Vec3i) -> int {
    let oc = v_sub(center, origin);
    let a = v_len_sq(direction);
    let h = v_dot(direction, oc);
    let c = v_len_sq(oc) - fx_mul(radius, radius);
    let disc = fx_mul(h, h) - fx_mul(a, c);
    if disc < 0 {
        -(SCALE as int)
    } else {
        fx_div(h - fx_sqrt(disc), a)
    }
}

/// Pure white, the lower end of the background gradient.
pub open spec fn white() -> Vec3i {
    Vec3i { x: SCALE as int, y: SCALE as int, z: SCALE as int }
}

/// Sky blue (0.5, 0.7, 1.0), the upper end of the background gradient.
pub open spec fn sky_blue() -> Vec3i {
    Vec3i { x: 500_000, y: 700_000, z: SCALE as int }
}

/// Normal-visualization shading: each component of the unit normal is
/// mapped from [-1, 1] to a display channel in [0, 1] by `0.5 * (n + 1)`.
pub open spec fn s_shade(n: Vec3i) -> Vec3i {
    v_scale(500_000, v_add(n, white()))
}

/// The vertical background gradient: blend white toward sky blue by
/// `a = 0.5 * (u.y + 1)`, where `u` is the unit direction.
pub open spec fn s_background(direction: Vec3i) -> Vec3i {
    let u = v_unit(direction);
    let a = fx_mul(500_000, u.y + SCALE);
    v_add(v_scale(SCALE as int - a, white()), v_scale(a, sky_blue()))
}

/// The color resolved for a ray: normal shading on every forward hit of
/// the fixed sphere, the background gradient on a miss.  The sole
/// exception is a computed hit point lying exactly on the sphere's center,
/// whose normal has length zero and cannot be normalized: it falls back to
/// the gradient.
pub open spec fn s_ray_color(origin: Vec3i, direction: Vec3i) -> Vec3i {
    let t = s_hit_sphere(sphere_center(), SPHERE_RADIUS as int, origin, direction);
    if t > 0 {
        let n = v_sub(v_at(origin, direction, t), sphere_center());
        if v_len_sq(n) > 0 {
            s_shade(v_unit(n))
        } else {
            s_background(direction)
        }
    } else {
        s_background(direction)
    }
}

/// Solves the ray-sphere quadratic: with `oc = center - origin`,
/// `a = |direction|^2`, `h = direction . oc` and `c = |oc|^2 - radius^2`,
/// a negative discriminant `h^2 - a*c` means no intersection (sentinel
/// `-SCALE`), and otherwise the nearer root `(h - sqrt(disc)) / a` is
/// returned.  The zero-length direction (`a == 0`) is excluded by
/// precondition.
pub fn hit_sphere(center: &Point3, radius: i64, r: &Ray) -> (t: i64)
    requires
        within(center@, COORD_BOUND as int),
        within(r.origin@, COORD_BOUND as int),
        within(r.direction@, COORD_BOUND as int),
        -COORD_BOUND <= radius <= COORD_BOUND,
        v_len_sq(r.direction@) > 0,
    ensures
        t == s_hit_sphere(center@, radius as int, r.origin@, r.direction@),
{
    let oc = center.sub(r.origin);
    proof {
        lemma_dot_range(r.direction@, r.direction@, COORD_BOUND as int, COORD_BOUND as int);
        lemma_dot_range(r.direction@, oc@, COORD_BOUND as int, 2 * COORD_BOUND as int);
        lemma_dot_range(oc@, oc@, 2 * COORD_BOUND as int, 2 * COORD_BOUND as int);
        lemma_fx_mul_range(radius as int, radius as int, COORD_BOUND as int, COORD_BOUND as int);
    }
    let a = r.direction.length_squared();
    let h = r.direction.dot(&oc);
    let c = oc.length_squared() - mul_fixed(radius, radius);
    proof {
        lemma_fx_mul_range(h as int, h as int, 864_000_000, 864_000_000);
        lemma_fx_mul_range(a as int, c as int, 432_000_000, 1_872_000_000);
    }
    let disc = mul_fixed(h, h) - mul_fixed(a, c);
    if disc < 0 {
        -SCALE
    } else {
        let sq = sqrt_fixed(disc);
        div_fixed(h - sq, a)
    }
}

/// A positive hit parameter of the quadratic, for a direction of at least
/// unit squared length, is at most 864 units, and scales each direction
/// component to a displacement of at most 42 units: a direction can only
/// have a large component along with a large quadratic coefficient `a`,
/// and dividing by `a` caps the root.
proof fn lemma_hit_param_bounds(d: Vec3i, oc: Vec3i, sq: int, t: int)
    requires
        within(d, COORD_BOUND as int),
        within(oc, 2 * COORD_BOUND as int),
        v_len_sq(d) >= SCALE as int,
        sq >= 0,
        t == fx_div(v_dot(d, oc) - sq, v_len_sq(d)),
        t >= 1,
    ensures
        t <= 864_000_000,
        iabs(fx_mul(t, d.x)) <= 42_000_000,
        iabs(fx_mul(t, d.y)) <= 42_000_000,
        iabs(fx_mul(t, d.z)) <= 42_000_000,
{
    let s: int = SCALE as int;
    let a = v_len_sq(d);
    let h = v_dot(d, oc);
    let sd = d.x * d.x + d.y * d.y + d.z * d.z;
    let sdo = d.x * oc.x + d.y * oc.y + d.z * oc.z;
    assert(sd >= 0) by (nonlinear_arith)
        requires
            sd == d.x * d.x + d.y * d.y + d.z * d.z,
    ;
    lemma_fundamental_div_mod(sd, s);
    assert(a * s <= sd < a * s + s);
    // the numerator of the root is positive, so h itself is positive
    let num = (h - sq) * s;
    if h - sq <= 0 {
        lemma_tdiv_mono(num, 0, a);
        assert(false);
    }
    assert(h >= 1);
    if sdo <= 0 {
        lemma_tdiv_mono(sdo, 0, s);
        assert(false);
    }
    // scaled-up bounds on h and on the root itself
    lemma_tdiv_mul_bounds(sdo, s);
    assert(s * h <= sdo);
    lemma_tdiv_mul_bounds(num, a);
    assert(a * t <= num);
    assert(num <= h * s);
    assert(s * t <= a * t) by (nonlinear_arith)
        requires
            s <= a,
            t >= 0,
    ;
    // h, and with it t, is at most 864 units
    let sa = iabs(d.x) + iabs(d.y) + iabs(d.z);
    assert(sdo <= 24_000_000 * sa) by (nonlinear_arith)
        requires
            within(d, 12_000_000),
            within(oc, 24_000_000),
            sdo == d.x * oc.x + d.y * oc.y + d.z * oc.z,
            sa == iabs(d.x) + iabs(d.y) + iabs(d.z),
    ;
    assert(sa <= 36_000_000);
    assert(h <= 864_000_000);
    assert(t <= 864_000_000);
    // the quadratic caps each scaled component: (s*h)^2 <= 1.728e15 * sd
    assert(sa * sa <= 3 * sd) by (nonlinear_arith)
        requires
            sd == d.x * d.x + d.y * d.y + d.z * d.z,
            sa == iabs(d.x) + iabs(d.y) + iabs(d.z),
    ;
    let hs = s * h;
    assert(hs * hs <= 1_728_000_000_000_000 * sd) by (nonlinear_arith)
        requires
            0 <= hs <= 24_000_000 * sa,
            sa * sa <= 3 * sd,
            0 <= sa,
    ;
    assert(d.x * d.x <= sd && d.y * d.y <= sd && d.z * d.z <= sd) by (nonlinear_arith)
        requires
            sd == d.x * d.x + d.y * d.y + d.z * d.z,
    ;
    lemma_axis_cap(a, t, d.x, hs, sd);
    lemma_axis_cap(a, t, d.y, hs, sd);
    lemma_axis_cap(a, t, d.z, hs, sd);
    assert(iabs(t * d.x) == t * iabs(d.x) && iabs(t * d.y) == t * iabs(d.y) && iabs(t * d.z) == t
        * iabs(d.z)) by (nonlinear_arith)
        requires
            t >= 0,
    ;
    lemma_tdiv_range(t * d.x, s, 41_700_000_000_000);
    lemma_tdiv_range(t * d.y, s, 41_700_000_000_000);
    lemma_tdiv_range(t * d.z, s, 41_700_000_000_000);
}

/// One axis of the cap above: from `a * t <= h * s`, the squared chain
/// `(a * t * |dc|)^2 <= (h*s)^2 * dc^2 <= 1.728e15 * ((a+1) * s)^2` caps
/// the scaled displacement `t * |dc|` at 41.7 units once divided by
/// `a >= SCALE`.
proof fn lemma_axis_cap(a: int, t: int, dc: int, hs: int, sd: int)
    requires
        a >= 1_000_000,
        t >= 1,
        0 <= a * t <= hs,
        hs * hs <= 1_728_000_000_000_000 * sd,
        dc * dc <= sd,
        0 <= sd,
        sd < (a + 1) * 1_000_000,
    ensures
        t * iabs(dc) <= 41_700_000_000_000,
{
    let idc = iabs(dc);
    let x = t * idc;
    let m = (a + 1) * 1_000_000;
    assert(0 <= dc * dc && 0 <= hs * hs) by (nonlinear_arith);
    assert(0 <= x && (a * x) * (a * x) == ((a * t) * (a * t)) * (dc * dc)) by (nonlinear_arith)
        requires
            x == t * idc,
            idc == iabs(dc),
            t >= 1,
    ;
    assert(((a * t) * (a * t)) * (dc * dc) <= (hs * hs) * (dc * dc)) by (nonlinear_arith)
        requires
            0 <= a * t <= hs,
            0 <= dc * dc,
    ;
    assert((hs * hs) * (dc * dc) <= (1_728_000_000_000_000 * sd) * sd) by (nonlinear_arith)
        requires
            hs * hs <= 1_728_000_000_000_000 * sd,
            0 <= dc * dc <= sd,
            0 <= hs * hs,
            0 <= sd,
    ;
    assert((1_728_000_000_000_000 * sd) * sd < (41_600_000 * m) * (41_600_000 * m))
        by (nonlinear_arith)
        requires
            0 <= sd < m,
    ;
    assert(a * x <= 41_600_000 * m) by (nonlinear_arith)
        requires
            (a * x) * (a * x) < (41_600_000 * m) * (41_600_000 * m),
            0 <= a * x,
            0 <= m,
    ;
    assert(x <= 41_700_000_000_000) by (nonlinear_arith)
        requires
            a * x <= 41_600_000 * ((a + 1) * 1_000_000),
            a >= 1_000_000,
            x >= 0,
    ;
}

/// For a direction of at least unit squared length, every channel of the
/// background gradient lies within two millionths of the white-to-sky-blue
/// segment: the blend factor can leave [0, 1] by at most a millionth, so
/// no channel strays past one by more than two steps.
proof fn lemma_background_range(direction: Vec3i)
    requires
        within(direction, COORD_BOUND as int),
        v_len_sq(direction) >= SCALE as int,
    ensures
        within(s_background(direction), SCALE as int + 2),
{
    let s: int = SCALE as int;
    crate::vec3::lemma_unit_component_bound(direction);
    let u = v_unit(direction);
    let a = fx_mul(500_000, u.y + s);
    assert(-1_000_000 <= 500_000 * (u.y + s) <= 1_000_001_000_000);
    lemma_tdiv_range(500_000 * (u.y + s), s, 1_000_001_000_000);
    lemma_tdiv_mono(-1_000_000, 500_000 * (u.y + s), s);
    assert(-1 <= a <= 1_000_001);
    // the white channels cancel exactly: (1 - a) * 1 contributes 1 - a
    lemma_tdiv_cancel(s - a, s);
    lemma_tdiv_cancel(a, s);
    // the half and seven-tenths sky channels are within a step of a/2, 7a/10
    let th5 = fx_mul(a, 500_000);
    let th7 = fx_mul(a, 700_000);
    lemma_tdiv_mul_bounds(a * 500_000, s);
    lemma_tdiv_mul_bounds(a * 700_000, s);
    assert(a - 1 <= 2 * th5 <= a + 1 && 7 * a - 10 <= 10 * th7 <= 7 * a + 10);
    assert(within(s_background(direction), s + 2));
}

/// Resolves a ray to a color.  Every forward hit of the fixed sphere at
/// (0, 0, -1) with radius one half is shaded by its outward unit normal;
/// a miss gets the white-to-sky-blue vertical gradient.  The direction
/// must have at least unit squared length: that keeps every forward hit
/// point inside the representable range, and is what the camera provides.
/// Channels stay near [0, 1]: within two millionths of it on the gradient,
/// and within a quarter past it even on the worst truncation-degraded hit.
pub fn ray_color(r: &Ray) -> (c: Color)
    requires
        within(r.origin@, COORD_BOUND as int),
        within(r.direction@, COORD_BOUND as int),
        v_len_sq(r.direction@) >= SCALE as int,
    ensures
        c@ == s_ray_color(r.origin@, r.direction@),
        within(c@, 1_250_000),
{
    let center = Vector3::new(0, 0, -SCALE);
    let t = hit_sphere(&center, SPHERE_RADIUS, r);
    if t > 0 {
        proof {
            let oc = v_sub(center@, r.origin@);
            let a = v_len_sq(r.direction@);
            let h = v_dot(r.direction@, oc);
            let cc = v_len_sq(oc) - fx_mul(SPHERE_RADIUS as int, SPHERE_RADIUS as int);
            let disc = fx_mul(h, h) - fx_mul(a, cc);
            assert(disc >= 0 && t == fx_div(h - fx_sqrt(disc), a));
            lemma_hit_param_bounds(r.direction@, oc, fx_sqrt(disc), t as int);
            assert(iabs(t as int * r.direction@.x) <= 10_368_000_000_000_000 && iabs(
                t as int * r.direction@.y,
            ) <= 10_368_000_000_000_000 && iabs(t as int * r.direction@.z)
                <= 10_368_000_000_000_000) by (nonlinear_arith)
                requires
                    0 <= t as int <= 864_000_000,
                    within(r.direction@, 12_000_000),
            ;
        }
        let p = r.at(t);
        let n = p.sub(center);
        proof {
            assert(within(n@, OP_BOUND as int));
        }
        if n.length_squared() > 0 {
            let u = n.unit_vector();
            proof {
                crate::vec3::lemma_unit_component_bound(n@);
                lemma_fx_mul_range(500_000, u@.x + SCALE, 500_000, 2_416_000);
                lemma_fx_mul_range(500_000, u@.y + SCALE, 500_000, 2_416_000);
                lemma_fx_mul_range(500_000, u@.z + SCALE, 500_000, 2_416_000);
            }
            let shaded = u.add(Vector3::new(SCALE, SCALE, SCALE)).scale(500_000);
            return shaded;
        }
    }
    let u = r.direction.unit_vector();
    proof {
        crate::vec3::lemma_unit_component_bound(r.direction@);
        lemma_background_range(r.direction@);
        lemma_fx_mul_range(500_000, u@.y + SCALE, 500_000, 2_000_002);
    }
    let a = mul_fixed(500_000, u.y() + SCALE);
    proof {
        lemma_tdiv_mono(-1_000_000, 500_000 * (u@.y + SCALE), SCALE as int);
        lemma_fx_mul_range(SCALE as int - a, SCALE as int, 1_000_001, SCALE as int);
        lemma_fx_mul_range(a as int, 500_000, 1_000_001, 500_000);
        lemma_fx_mul_range(a as int, 700_000, 1_000_001, 700_000);
        lemma_fx_mul_range(a as int, SCALE as int, 1_000_001, SCALE as int);
    }
    let lower = Vector3::new(SCALE, SCALE, SCALE).scale(SCALE - a);
    let upper = Vector3::new(500_000, 700_000, SCALE).scale(a);
    let blended = lower.add(upper);
    proof {
        assert(blended@ == s_background(r.direction@));
    }
    blended
}

} // verus!
