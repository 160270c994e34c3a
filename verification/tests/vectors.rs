use raytracer::fixed::SCALE;
use raytracer::vec3::Vector3;

#[test]
fn new_and_component_access() {
    let v = Vector3::new(1_000_000, -2_000_000, 250_000);
    assert_eq!(v.x(), 1_000_000);
    assert_eq!(v.y(), -2_000_000);
    assert_eq!(v.z(), 250_000);
}

#[test]
fn zero_is_all_zero() {
    let v = Vector3::zero();
    assert_eq!(v.x(), 0);
    assert_eq!(v.y(), 0);
    assert_eq!(v.z(), 0);
}

#[test]
fn add_sub_neg_are_componentwise() {
    let a = Vector3::new(1_000_000, 2_000_000, -3_000_000);
    let b = Vector3::new(500_000, -500_000, 1_500_000);
    assert_eq!(a.add(b), Vector3::new(1_500_000, 1_500_000, -1_500_000));
    assert_eq!(a.sub(b), Vector3::new(500_000, 2_500_000, -4_500_000));
    assert_eq!(a.neg(), Vector3::new(-1_000_000, -2_000_000, 3_000_000));
}

#[test]
fn scale_and_div_are_inverse_on_exact_values() {
    let a = Vector3::new(1_000_000, -2_000_000, 3_000_000);
    // half of each component, then doubled again
    let half = a.scale(500_000);
    assert_eq!(half, Vector3::new(500_000, -1_000_000, 1_500_000));
    assert_eq!(half.scale(2_000_000), a);
    assert_eq!(a.div(2_000_000), half);
}

#[test]
fn hadamard_mul_is_componentwise() {
    let a = Vector3::new(2_000_000, -3_000_000, 500_000);
    let b = Vector3::new(500_000, 1_000_000, 4_000_000);
    assert_eq!(a.mul(b), Vector3::new(1_000_000, -3_000_000, 2_000_000));
}

#[test]
fn indexed_component_access() {
    let mut v = Vector3::new(10, 20, 30);
    assert_eq!(v.component(0), 10);
    assert_eq!(v.component(1), 20);
    assert_eq!(v.component(2), 30);
    v.set_component(1, -99);
    assert_eq!(v, Vector3::new(10, -99, 30));
}

#[test]
fn compound_assignment_operations() {
    let mut v = Vector3::new(1_000_000, -2_000_000, 3_000_000);
    v.add_assign(Vector3::new(500_000, 500_000, 500_000));
    assert_eq!(v, Vector3::new(1_500_000, -1_500_000, 3_500_000));
    v.mul_assign(2_000_000);
    assert_eq!(v, Vector3::new(3_000_000, -3_000_000, 7_000_000));
    v.div_assign(-1_000_000);
    assert_eq!(v, Vector3::new(-3_000_000, 3_000_000, -7_000_000));
}

#[test]
fn dot_exact_value() {
    // (1.5, -2, 0.25) . (0.5, 3, -1) == 0.75 - 6 - 0.25 == -5.5
    let a = Vector3::new(1_500_000, -2_000_000, 250_000);
    let b = Vector3::new(500_000, 3_000_000, -1_000_000);
    assert_eq!(a.dot(&b), -5_500_000);
}

#[test]
fn dot_is_symmetric() {
    let a = Vector3::new(1_234_567, -7_654_321, 999_999);
    let b = Vector3::new(-111_111, 222_222, 333_333);
    assert_eq!(a.dot(&b), b.dot(&a));
}

#[test]
fn cross_exact_value() {
    // x cross y == z
    let x = Vector3::new(SCALE, 0, 0);
    let y = Vector3::new(0, SCALE, 0);
    assert_eq!(x.cross(&y), Vector3::new(0, 0, SCALE));
}

#[test]
fn cross_is_antisymmetric() {
    let a = Vector3::new(1_234_567, -7_654_321, 999_999);
    let b = Vector3::new(-111_111, 222_222, 333_333);
    assert_eq!(a.cross(&b), b.cross(&a).neg());
}

#[test]
fn length_of_three_four_zero_is_five() {
    let a = Vector3::new(3_000_000, 4_000_000, 0);
    assert_eq!(a.length_squared(), 25_000_000);
    assert_eq!(a.length(), 5_000_000);
}

#[test]
fn unit_vector_has_unit_length() {
    let a = Vector3::new(1_000_000, 2_000_000, 3_000_000);
    let u = a.unit_vector();
    let l = u.length();
    assert!((l - SCALE).abs() <= 3, "length of unit vector was {}", l);

    let b = Vector3::new(-4_500_000, 10_000, 2_250_000);
    let lb = b.unit_vector().length();
    assert!((lb - SCALE).abs() <= 3, "length of unit vector was {}", lb);
}

#[test]
fn unit_vector_of_axis_is_exact() {
    let a = Vector3::new(0, 7_000_000, 0);
    assert_eq!(a.unit_vector(), Vector3::new(0, SCALE, 0));
}
