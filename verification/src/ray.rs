//! Rays: an origin point plus a direction vector.
//!
//! A ray stands for the set of points `origin + t * direction`; the
//! direction need not be a unit vector, and `t` may be negative ("behind"
//! the origin).

use vstd::prelude::*;

verus! {

use crate::fixed::fx_mul;
use crate::vec3::Point3;
use crate::vec3::Vec3i;
use crate::vec3::Vector3;
use crate::vec3::v_add;
use crate::vec3::v_scale;

/// The point a ray reaches at parameter `t`: `origin + t * direction`,
/// evaluated in fixed-point arithmetic.
pub open spec fn v_at(origin: Vec3i, direction: Vec3i, t: int) -> Vec3i {
    v_add(origin, v_scale(t, direction))
}

/// A ray's parametric evaluation is, by definition, its origin displaced by
/// `t` times its direction.
pub proof fn lemma_ray_at(origin: Vec3i, direction: Vec3i, t: int)
    ensures
        v_at(origin, direction, t) == v_add(origin, v_scale(t, direction)),
{
}

/// An origin point and a direction vector; constructed once per pixel and
/// read-only thereafter.
#[derive(Clone, Copy, Debug)]
pub struct Ray {
    pub origin: Point3,
    pub direction: Vector3,
}

impl Ray {
    /// Builds a ray from an origin and a direction.
    pub fn new(origin: &Point3, direction: &Vector3) -> (r: Ray)
        ensures
            r.origin == *origin,
            r.direction == *direction,
    {
        Ray { origin: *origin, direction: *direction }
    }

    /// The point `origin + t * direction`.
    pub fn at(&self, t: i64) -> (p: Point3)
        requires
            i64::MIN < t * self.direction@.x <= i64::MAX,
            i64::MIN < t * self.direction@.y <= i64::MAX,
            i64::MIN < t * self.direction@.z <= i64::MAX,
            i64::MIN <= self.origin@.x + fx_mul(t as int, self.direction@.x) <= i64::MAX,
            i64::MIN <= self.origin@.y + fx_mul(t as int, self.direction@.y) <= i64::MAX,
            i64::MIN <= self.origin@.z + fx_mul(t as int, self.direction@.z) <= i64::MAX,
        ensures
            p@ == v_at(self.origin@, self.direction@, t as int),
    {
        self.origin.add(self.direction.scale(t))
    }
}

} // verus!
