//! A rectangle in the xz-plane, centered at the origin, with its vertex and
//! bounding-box queries under a rigid transform.

use vstd::prelude::*;
use crate::geometry::aabb::{
    box_of_corners, is_interval, spec_max2, spec_min2, Aabb,
};
use crate::types::{spec_apply_row, Transform3, Vec3};
use crate::utils::scalar::{min2, max2, MAX_COORD};

verus! {

/// An axis-aligned rectangle of the given width (along x) and height (along
/// z), lying in the xz-plane and centered at the origin until transformed.
#[derive(Clone, Copy, PartialEq, Eq, Structural, Debug)]
pub struct Rectangle {
    pub width: i64,
    pub height: i64,
}

/// The smallest of four mathematical integers.
pub open spec fn spec_min4(a: int, b: int, c: int, d: int) -> int {
    spec_min2(spec_min2(a, b), spec_min2(c, d))
}

/// The largest of four mathematical integers.
pub open spec fn spec_max4(a: int, b: int, c: int, d: int) -> int {
    spec_max2(spec_max2(a, b), spec_max2(c, d))
}

impl Rectangle {
    /// Non-negative, bounded side lengths.
    pub open spec fn wf(self) -> bool {
        0 <= self.width <= MAX_COORD && 0 <= self.height <= MAX_COORD
    }

    /// Half the width, floored to units.
    pub open spec fn spec_half_width(self) -> int {
        self.width as int / 2
    }

    /// Half the height, floored to units.
    pub open spec fn spec_half_height(self) -> int {
        self.height as int / 2
    }

    /// The four untransformed corners, counterclockwise seen from above,
    /// starting at the back-left one.
    pub open spec fn spec_corner(self, k: int) -> Vec3 {
        let w = self.spec_half_width() as i64;
        let h = self.spec_half_height() as i64;
        let nw = (-self.spec_half_width()) as i64;
        let nh = (-self.spec_half_height()) as i64;
        if k == 0 {
            Vec3 { x: nw, y: 0, z: nh }
        } else if k == 1 {
            Vec3 { x: nw, y: 0, z: h }
        } else if k == 2 {
            Vec3 { x: w, y: 0, z: h }
        } else {
            Vec3 { x: w, y: 0, z: nh }
        }
    }

    /// The x coordinate of the `k`-th corner under `t`.
    pub open spec fn spec_vertex_x(self, t: Transform3, k: int) -> int {
        spec_apply_row(t.rx, self.spec_corner(k), t.t.x as int)
    }

    /// The y coordinate of the `k`-th corner under `t`.
    pub open spec fn spec_vertex_y(self, t: Transform3, k: int) -> int {
        spec_apply_row(t.ry, self.spec_corner(k), t.t.y as int)
    }

    /// The z coordinate of the `k`-th corner under `t`.
    pub open spec fn spec_vertex_z(self, t: Transform3, k: int) -> int {
        spec_apply_row(t.rz, self.spec_corner(k), t.t.z as int)
    }

    pub fn new(width: i64, height: i64) -> (r: Rectangle)
        requires
            0 <= width <= MAX_COORD,
            0 <= height <= MAX_COORD,
        ensures
            r == (Rectangle { width, height }),
            r.wf(),
    {
        Rectangle { width, height }
    }

    /// The rectangle's four corners under the transform, counterclockwise
    /// seen from above, starting at the back-left one.
    pub fn vertices(&self, transform: &Transform3) -> (r: Vec<Vec3>)
        requires
            self.wf(),
            transform.wf(),
        ensures
            r@.len() == 4,
            forall|k: int|
                0 <= k < 4 ==> (#[trigger] r@[k]).x == self.spec_vertex_x(*transform, k)
                    && r@[k].y == self.spec_vertex_y(*transform, k) && r@[k].z
                    == self.spec_vertex_z(*transform, k),
            forall|k: int|
                0 <= k < 4 ==> -4 * MAX_COORD <= (#[trigger] r@[k]).x <= 4 * MAX_COORD && -4
                    * MAX_COORD <= r@[k].y <= 4 * MAX_COORD && -4 * MAX_COORD <= r@[k].z <= 4
                    * MAX_COORD,
    {
        let w = self.width / 2;
        let h = self.height / 2;
        let c0 = Vec3 { x: -w, y: 0, z: -h };
        let c1 = Vec3 { x: -w, y: 0, z: h };
        let c2 = Vec3 { x: w, y: 0, z: h };
        let c3 = Vec3 { x: w, y: 0, z: -h };
        let mut r: Vec<Vec3> = Vec::new();
        r.push(transform.apply(&c0));
        r.push(transform.apply(&c1));
        r.push(transform.apply(&c2));
        r.push(transform.apply(&c3));
        r
    }

    /// The box spanned by the componentwise extremes of the four transformed
    /// corners.
    #[verifier::rlimit(60)]
    pub fn bounding_box(&self, transform: &Transform3) -> (r: Aabb)
        requires
            self.wf(),
            transform.wf(),
        ensures
            r.wf(),
            is_interval(
                r.center.x as int,
                r.extents.x as int,
                spec_min4(
                    self.spec_vertex_x(*transform, 0),
                    self.spec_vertex_x(*transform, 1),
                    self.spec_vertex_x(*transform, 2),
                    self.spec_vertex_x(*transform, 3),
                ),
                spec_max4(
                    self.spec_vertex_x(*transform, 0),
                    self.spec_vertex_x(*transform, 1),
                    self.spec_vertex_x(*transform, 2),
                    self.spec_vertex_x(*transform, 3),
                ),
            ),
            is_interval(
                r.center.y as int,
                r.extents.y as int,
                spec_min4(
                    self.spec_vertex_y(*transform, 0),
                    self.spec_vertex_y(*transform, 1),
                    self.spec_vertex_y(*transform, 2),
                    self.spec_vertex_y(*transform, 3),
                ),
                spec_max4(
                    self.spec_vertex_y(*transform, 0),
                    self.spec_vertex_y(*transform, 1),
                    self.spec_vertex_y(*transform, 2),
                    self.spec_vertex_y(*transform, 3),
                ),
            ),
            is_interval(
                r.center.z as int,
                r.extents.z as int,
                spec_min4(
                    self.spec_vertex_z(*transform, 0),
                    self.spec_vertex_z(*transform, 1),
                    self.spec_vertex_z(*transform, 2),
                    self.spec_vertex_z(*transform, 3),
                ),
                spec_max4(
                    self.spec_vertex_z(*transform, 0),
                    self.spec_vertex_z(*transform, 1),
                    self.spec_vertex_z(*transform, 2),
                    self.spec_vertex_z(*transform, 3),
                ),
            ),
    {
        let vs = self.vertices(transform);
        let lo = Vec3 {
            x: min2(min2(vs[0].x, vs[1].x), min2(vs[2].x, vs[3].x)),
            y: min2(min2(vs[0].y, vs[1].y), min2(vs[2].y, vs[3].y)),
            z: min2(min2(vs[0].z, vs[1].z), min2(vs[2].z, vs[3].z)),
        };
        let hi = Vec3 {
            x: max2(max2(vs[0].x, vs[1].x), max2(vs[2].x, vs[3].x)),
            y: max2(max2(vs[0].y, vs[1].y), max2(vs[2].y, vs[3].y)),
            z: max2(max2(vs[0].z, vs[1].z), max2(vs[2].z, vs[3].z)),
        };
        box_of_corners(&lo, &hi)
    }
}

} // verus!
