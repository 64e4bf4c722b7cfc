use openglrs::geometry::square::Square;
use openglrs::types::{Transform3, Vec3};
use openglrs::utils::scalar::ONE;
use openglrs::utils::vec3::pt3f_almost_eq;

const HALF: i64 = ONE / 2;

fn translation(v: Vec3) -> Transform3 {
    Transform3::new(
        Vec3::new(ONE, 0, 0),
        Vec3::new(0, ONE, 0),
        Vec3::new(0, 0, ONE),
        v,
    )
}

/// Rotation by a quarter turn about the x axis, then a translation: the
/// rotation matrix rows are exact in fixed point (cosine 0, sine 1).
fn quarter_turn_x_then(v: Vec3) -> Transform3 {
    Transform3::new(
        Vec3::new(ONE, 0, 0),
        Vec3::new(0, 0, -ONE),
        Vec3::new(0, ONE, 0),
        v,
    )
}

#[test]
fn test_transform1() {
    let s = Square::new(ONE);
    let t = translation(Vec3::new(0, 2 * ONE, 0));
    let vertices = s.vertices(&t);
    assert!(pt3f_almost_eq(&vertices[0], &Vec3::new(-HALF, 2 * ONE, -HALF)));
    assert!(pt3f_almost_eq(&vertices[1], &Vec3::new(-HALF, 2 * ONE, HALF)));
    assert!(pt3f_almost_eq(&vertices[2], &Vec3::new(HALF, 2 * ONE, HALF)));
    assert!(pt3f_almost_eq(&vertices[3], &Vec3::new(HALF, 2 * ONE, -HALF)));
}

#[test]
fn test_transform2() {
    let s = Square::new(ONE);
    let t = quarter_turn_x_then(Vec3::new(0, 0, HALF));
    let vertices = s.vertices(&t);
    assert!(pt3f_almost_eq(&vertices[0], &Vec3::new(-HALF, HALF, HALF)));
    assert!(pt3f_almost_eq(&vertices[1], &Vec3::new(-HALF, -HALF, HALF)));
    assert!(pt3f_almost_eq(&vertices[2], &Vec3::new(HALF, -HALF, HALF)));
    assert!(pt3f_almost_eq(&vertices[3], &Vec3::new(HALF, HALF, HALF)));
}

#[test]
fn square_bounding_box_spans_vertices() {
    let s = Square::new(2 * ONE);
    let b = s.bounding_box(&translation(Vec3::new(ONE, 3 * ONE, 0)));
    assert_eq!(b.min(), Vec3::new(0, 3 * ONE, -ONE));
    assert_eq!(b.max(), Vec3::new(2 * ONE, 3 * ONE, ONE));
    assert!(b.contains(&Vec3::new(ONE, 3 * ONE, 0)));
}
