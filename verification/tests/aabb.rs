use openglrs::geometry::aabb::Aabb;
use openglrs::types::{Face, Transform3, Vec3};
use openglrs::utils::scalar::{EPSILON, INF, ONE};

const HALF: i64 = ONE / 2;

fn cube() -> Aabb {
    Aabb::new_min_max(Vec3::new(-ONE, -ONE, -ONE), Vec3::new(ONE, ONE, ONE))
}

#[test]
fn test_face() {
    let aabb = cube();
    assert_eq!(aabb.face(&Vec3::new(0, ONE, 0)), Some(Face::Top));
    assert_eq!(aabb.face(&Vec3::new(0, -ONE, 0)), Some(Face::Bottom));
    assert_eq!(aabb.face(&Vec3::new(-ONE, HALF, HALF)), Some(Face::Left));
    assert_eq!(aabb.face(&Vec3::new(ONE, HALF, HALF)), Some(Face::Right));
    assert_eq!(aabb.face(&Vec3::new(HALF, HALF, ONE)), Some(Face::Front));
    assert_eq!(aabb.face(&Vec3::new(-HALF, HALF, -ONE)), Some(Face::Back));
}

#[test]
fn test_partition() {
    let aabb = cube();
    let partition = aabb.partition();

    assert_eq!(
        partition.tfl,
        Aabb::new_min_max(Vec3::new(-ONE, 0, 0), Vec3::new(0, ONE, ONE))
    );
    assert_eq!(
        partition.tfr,
        Aabb::new_min_max(Vec3::new(0, 0, 0), Vec3::new(ONE, ONE, ONE))
    );
    assert_eq!(
        partition.tbl,
        Aabb::new_min_max(Vec3::new(-ONE, 0, -ONE), Vec3::new(0, ONE, 0))
    );
    assert_eq!(
        partition.tbr,
        Aabb::new_min_max(Vec3::new(0, 0, -ONE), Vec3::new(ONE, ONE, 0))
    );

    assert_eq!(
        partition.bfl,
        Aabb::new_min_max(Vec3::new(-ONE, -ONE, 0), Vec3::new(0, 0, ONE))
    );
    assert_eq!(
        partition.bfr,
        Aabb::new_min_max(Vec3::new(0, -ONE, 0), Vec3::new(ONE, 0, ONE))
    );
    assert_eq!(
        partition.bbl,
        Aabb::new_min_max(Vec3::new(-ONE, -ONE, -ONE), Vec3::new(0, 0, 0))
    );
    assert_eq!(
        partition.bbr,
        Aabb::new_min_max(Vec3::new(0, -ONE, -ONE), Vec3::new(ONE, 0, 0))
    );
}

#[test]
fn min_max_corner_order_never_matters() {
    let lo = Vec3::new(-3 * ONE, ONE, -2 * ONE);
    let hi = Vec3::new(2 * ONE, 5 * ONE, 4 * ONE);
    assert_eq!(Aabb::new_min_max(lo, hi), Aabb::new_min_max(hi, lo));
    let mixed = Aabb::new_min_max(Vec3::new(2 * ONE, ONE, 4 * ONE), Vec3::new(-3 * ONE, 5 * ONE, -2 * ONE));
    assert_eq!(mixed, Aabb::new_min_max(lo, hi));
}

#[test]
fn min_max_corners_are_componentwise_extremes() {
    let b = Aabb::new_min_max(Vec3::new(2 * ONE, ONE, 4 * ONE), Vec3::new(-3 * ONE, 5 * ONE, -2 * ONE));
    assert_eq!(b.min(), Vec3::new(-3 * ONE, ONE, -2 * ONE));
    assert_eq!(b.max(), Vec3::new(2 * ONE, 5 * ONE, 4 * ONE));
    assert_eq!(b.center, Vec3::new(-HALF, 3 * ONE, ONE));
    assert_eq!(b.extents, Vec3::new(2 * ONE + HALF, 2 * ONE, 3 * ONE));
}

#[test]
fn odd_spans_round_conservatively() {
    // A one-unit sliver cannot center exactly; the box rounds outward, so it
    // still covers both corners, hitting the upper one exactly.
    let b = Aabb::new_min_max(Vec3::new(0, 0, 0), Vec3::new(1, 1, 1));
    assert_eq!(b.center, Vec3::new(0, 0, 0));
    assert_eq!(b.extents, Vec3::new(1, 1, 1));
    assert!(b.contains(&Vec3::new(0, 0, 0)));
    assert!(b.contains(&Vec3::new(1, 1, 1)));
    assert_eq!(b.max(), Vec3::new(1, 1, 1));
    assert_eq!(b.min(), Vec3::new(-1, -1, -1));
}

#[test]
fn extents_never_negative() {
    let b = Aabb::new_min_max(Vec3::new(7 * ONE, 7 * ONE, 7 * ONE), Vec3::new(-ONE, 0, ONE));
    assert!(b.extents.x >= 0 && b.extents.y >= 0 && b.extents.z >= 0);
    let c = Aabb::new(Vec3::new(0, 0, 0), Vec3::new(0, 0, 0));
    assert!(c.extents.x >= 0 && c.extents.y >= 0 && c.extents.z >= 0);
}

#[test]
fn merge_contains_both_inputs() {
    let a = Aabb::new_min_max(Vec3::new(-2 * ONE, -ONE, -ONE), Vec3::new(0, 0, 0));
    let b = Aabb::new_min_max(Vec3::new(0, 0, 0), Vec3::new(ONE, 3 * ONE, ONE));
    let m = Aabb::merge_aabbs(&[a, b]);
    assert!(m.contains(&Vec3::new(-2 * ONE, -ONE, -ONE)));
    assert!(m.contains(&Vec3::new(ONE, 3 * ONE, ONE)));
    assert!(m.contains(&Vec3::new(0, 0, 0)));
    assert_eq!(m.min(), Vec3::new(-2 * ONE, -ONE, -ONE));
    assert_eq!(m.max(), Vec3::new(ONE, 3 * ONE, ONE));
    assert!(!m.contains(&Vec3::new(2 * ONE, 0, 0)));
}

#[test]
fn merge_of_singleton_is_identity() {
    let a = Aabb::new_min_max(Vec3::new(-ONE, -ONE, -ONE), Vec3::new(ONE, 2 * ONE, 3 * ONE));
    assert_eq!(Aabb::merge_aabbs(&[a]), a);
}

#[test]
fn merge_with_infinite_is_infinite() {
    let a = Aabb::new_min_max(Vec3::new(-ONE, -ONE, -ONE), Vec3::new(ONE, ONE, ONE));
    let m = Aabb::merge_aabbs(&[a, Aabb::new_infinite()]);
    assert!(m.is_infinite());
    assert_eq!(m.extents, Vec3::new(INF, INF, INF));
    assert!(m.contains(&Vec3::new(1000 * ONE, -1000 * ONE, 0)));
}

#[test]
fn infinite_box_reports_infinite() {
    assert!(Aabb::new_infinite().is_infinite());
    assert!(!cube().is_infinite());
    assert!(Aabb::new(Vec3::new(0, 0, 0), Vec3::new(ONE, INF, ONE)).is_infinite());
}

#[test]
fn contains_closed_boundary_round_trip() {
    let b = Aabb::new_min_max(Vec3::new(-3 * ONE, -ONE, 0), Vec3::new(ONE, 2 * ONE, 5 * ONE));
    for &sx in &[-1i64, 1] {
        for &sy in &[-1i64, 1] {
            for &sz in &[-1i64, 1] {
                let p = Vec3::new(
                    b.center.x + sx * b.extents.x,
                    b.center.y + sy * b.extents.y,
                    b.center.z + sz * b.extents.z,
                );
                assert!(b.contains(&p));
            }
        }
    }
    assert!(!b.contains(&Vec3::new(b.center.x + b.extents.x + 1, b.center.y, b.center.z)));
}

#[test]
fn face_tolerates_near_boundary_points() {
    let aabb = cube();
    assert_eq!(aabb.face(&Vec3::new(0, ONE - EPSILON, 0)), Some(Face::Top));
    assert_eq!(aabb.face(&Vec3::new(0, ONE - EPSILON - 1, 0)), None);
    assert_eq!(aabb.face(&Vec3::new(0, 0, 0)), None);
}

#[test]
fn face_ties_resolve_in_fixed_order() {
    let aabb = cube();
    // A corner lies on Top, Front and Right at once; Top is checked first.
    assert_eq!(aabb.face(&Vec3::new(ONE, ONE, ONE)), Some(Face::Top));
    // An edge point on Front and Right; Front is checked before Right.
    assert_eq!(aabb.face(&Vec3::new(ONE, 0, ONE)), Some(Face::Front));
}

#[test]
fn points_returns_six_corners() {
    let b = cube();
    let pts = b.points();
    assert_eq!(pts.len(), 6);
    assert_eq!(pts[0], Vec3::new(-ONE, -ONE, -ONE));
    assert_eq!(pts[1], Vec3::new(-ONE, -ONE, ONE));
    assert_eq!(pts[2], Vec3::new(-ONE, ONE, -ONE));
    assert_eq!(pts[3], Vec3::new(-ONE, ONE, ONE));
    assert_eq!(pts[4], Vec3::new(ONE, -ONE, -ONE));
    assert_eq!(pts[5], Vec3::new(ONE, ONE, ONE));
}

#[test]
fn partition_octants_halve_and_tile() {
    let b = Aabb::new_min_max(Vec3::new(-2 * ONE, -2 * ONE, -2 * ONE), Vec3::new(2 * ONE, 2 * ONE, 2 * ONE));
    let o = b.partition();
    assert_eq!(o.bbl.min(), b.min());
    assert_eq!(o.tfr.max(), b.max());
    assert_eq!(o.tfl.extents, Vec3::new(ONE, ONE, ONE));
    assert_eq!(o.bbr.extents, Vec3::new(ONE, ONE, ONE));
    // A probe point is in the parent exactly when some octant holds it.
    let probe = Vec3::new(ONE + HALF, -ONE, 2 * ONE);
    let in_any = o.tfl.contains(&probe) || o.tfr.contains(&probe) || o.tbl.contains(&probe)
        || o.tbr.contains(&probe) || o.bfl.contains(&probe) || o.bfr.contains(&probe)
        || o.bbl.contains(&probe) || o.bbr.contains(&probe);
    assert!(b.contains(&probe) && in_any);
    let outside = Vec3::new(3 * ONE, 0, 0);
    let out_all = !(o.tfl.contains(&outside) || o.tfr.contains(&outside)
        || o.tbl.contains(&outside) || o.tbr.contains(&outside) || o.bfl.contains(&outside)
        || o.bfr.contains(&outside) || o.bbl.contains(&outside) || o.bbr.contains(&outside));
    assert!(!b.contains(&outside) && out_all);
}

#[test]
fn transform_by_identity_is_identity() {
    let b = Aabb::new_min_max(Vec3::new(-3 * ONE, ONE, 0), Vec3::new(ONE, 2 * ONE, 7 * ONE));
    assert_eq!(b.transform(&Transform3::identity()), b);
}

#[test]
fn transform_translates_center_only() {
    let b = Aabb::new(Vec3::new(0, 0, 0), Vec3::new(HALF, HALF, HALF));
    let t = Transform3::new(
        Vec3::new(ONE, 0, 0),
        Vec3::new(0, ONE, 0),
        Vec3::new(0, 0, ONE),
        Vec3::new(ONE, 2 * ONE, -ONE),
    );
    let moved = b.transform(&t);
    assert_eq!(moved.center, Vec3::new(ONE, 2 * ONE, -ONE));
    assert_eq!(moved.extents, b.extents);
}
