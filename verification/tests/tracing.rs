use raytracer::fixed::SCALE;
use raytracer::ray::Ray;
use raytracer::trace::{hit_sphere, ray_color, SPHERE_RADIUS};
use raytracer::vec3::Vector3;

#[test]
fn ray_at_matches_definition() {
    // at(R, t) == origin + t * direction, exactly
    let origin = Vector3::new(1_000_000, 2_000_000, 3_000_000);
    let direction = Vector3::new(2_000_000, -4_000_000, 6_000_000);
    let r = Ray::new(&origin, &direction);
    let t: i64 = 500_000;
    assert_eq!(r.at(t), origin.add(direction.scale(t)));
    assert_eq!(r.at(t), Vector3::new(2_000_000, 0, 6_000_000));
    // negative parameters reach behind the origin
    assert_eq!(r.at(-SCALE), Vector3::new(-1_000_000, 6_000_000, -3_000_000));
}

#[test]
fn ray_new_keeps_origin_and_direction() {
    let origin = Vector3::new(1, 2, 3);
    let direction = Vector3::new(4, 5, 6);
    let r = Ray::new(&origin, &direction);
    assert_eq!(r.origin, origin);
    assert_eq!(r.direction, direction);
}

#[test]
fn hit_sphere_straight_on() {
    // sphere center (0, 0, -1), radius one half; ray from the origin toward
    // (0, 0, -1): the nearer root is at the front surface, t == 0.5
    let center = Vector3::new(0, 0, -SCALE);
    let origin = Vector3::zero();
    let direction = Vector3::new(0, 0, -SCALE);
    let r = Ray::new(&origin, &direction);
    let t = hit_sphere(&center, SPHERE_RADIUS, &r);
    assert_eq!(t, 500_000);
}

#[test]
fn hit_sphere_miss_parallel() {
    // the same sphere, ray direction (1, 0, 0): no hit, sentinel -1
    let center = Vector3::new(0, 0, -SCALE);
    let origin = Vector3::zero();
    let direction = Vector3::new(SCALE, 0, 0);
    let r = Ray::new(&origin, &direction);
    let t = hit_sphere(&center, SPHERE_RADIUS, &r);
    assert_eq!(t, -SCALE);
}

#[test]
fn hit_sphere_from_inside_returns_negative_root() {
    // from the sphere's center, the nearer root lies behind the origin
    let center = Vector3::new(0, 0, -SCALE);
    let origin = Vector3::new(0, 0, -SCALE);
    let direction = Vector3::new(0, 0, -SCALE);
    let r = Ray::new(&origin, &direction);
    let t = hit_sphere(&center, SPHERE_RADIUS, &r);
    assert_eq!(t, -500_000);
}

#[test]
fn shader_hits_sphere_normal_color() {
    // straight at the sphere: hit at (0, 0, -0.5), normal (0, 0, 1),
    // mapped to the color (0.5, 0.5, 1.0)
    let origin = Vector3::zero();
    let direction = Vector3::new(0, 0, -SCALE);
    let r = Ray::new(&origin, &direction);
    let c = ray_color(&r);
    assert_eq!(c, Vector3::new(500_000, 500_000, SCALE));
}

#[test]
fn shader_hits_sphere_from_distant_origin() {
    // from (0, 0, 10), straight down the axis: the hit at (0, 0, -0.5) is
    // ten and a half units away and still shaded by its normal (0, 0, 1)
    let origin = Vector3::new(0, 0, 10 * SCALE);
    let direction = Vector3::new(0, 0, -SCALE);
    let r = Ray::new(&origin, &direction);
    assert_eq!(hit_sphere(&Vector3::new(0, 0, -SCALE), SPHERE_RADIUS, &r), 10_500_000);
    let c = ray_color(&r);
    assert_eq!(c, Vector3::new(500_000, 500_000, SCALE));
}

#[test]
fn shader_background_straight_up() {
    // direction (0, 1, 0): no hit, gradient factor a == 1, sky blue exactly
    let origin = Vector3::zero();
    let direction = Vector3::new(0, SCALE, 0);
    let r = Ray::new(&origin, &direction);
    let c = ray_color(&r);
    assert_eq!(c, Vector3::new(500_000, 700_000, SCALE));
}

#[test]
fn shader_background_horizontal_blend() {
    // direction (1, 0, 0): no hit, a == 0.5, halfway white to sky blue
    let origin = Vector3::zero();
    let direction = Vector3::new(SCALE, 0, 0);
    let r = Ray::new(&origin, &direction);
    let c = ray_color(&r);
    assert_eq!(c, Vector3::new(750_000, 850_000, SCALE));
}
