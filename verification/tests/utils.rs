use openglrs::types::{Vec3, Vec4};
use openglrs::utils::scalar::{almost_eq, EPSILON, ONE};
use openglrs::utils::vec3::{pt3f_almost_eq, Vector3fExt};

#[test]
fn scalar_almost_eq_within_tolerance() {
    assert!(almost_eq(0, 0));
    assert!(almost_eq(0, EPSILON));
    assert!(almost_eq(EPSILON, 0));
    assert!(!almost_eq(0, EPSILON + 1));
    assert!(almost_eq(-3 * ONE, -3 * ONE + EPSILON));
    assert!(!almost_eq(-3 * ONE, -3 * ONE - EPSILON - 1));
}

#[test]
fn vector_almost_eq_is_componentwise() {
    let a = Vec3::new(ONE, -ONE, 0);
    assert!(a.almost_eq(&Vec3::new(ONE + EPSILON, -ONE, EPSILON)));
    assert!(!a.almost_eq(&Vec3::new(ONE + EPSILON + 1, -ONE, 0)));
    assert!(pt3f_almost_eq(&a, &Vec3::new(ONE, -ONE, 0)));
    assert!(!pt3f_almost_eq(&a, &Vec3::new(ONE, ONE, 0)));
}

#[test]
fn vec3_from_vec4_drops_the_last_component() {
    let v = Vec4::new(ONE, 2 * ONE, -ONE, 7 * ONE);
    assert_eq!(Vec3::from_vec4f(v), Vec3::new(ONE, 2 * ONE, -ONE));
}
