//! A square: a rectangle with equal sides.

use vstd::prelude::*;
use crate::geometry::aabb::{is_interval, Aabb};
use crate::geometry::rectangle::{spec_max4, spec_min4, Rectangle};
use crate::types::{Transform3, Vec3};
use crate::utils::scalar::MAX_COORD;

verus! {

/// A square of a given side length, in the xz-plane and centered at the
/// origin until transformed.
#[derive(Clone, Copy, PartialEq, Eq, Structural, Debug)]
pub struct Square {
    rect: Rectangle,
}

impl Square {
    /// The underlying rectangle, with both sides equal.
    pub closed spec fn spec_rect(self) -> Rectangle {
        self.rect
    }

    pub fn new(side: i64) -> (r: Square)
        requires
            0 <= side <= MAX_COORD,
        ensures
            r.spec_rect() == (Rectangle { width: side, height: side }),
            r.spec_rect().wf(),
    {
        Square { rect: Rectangle::new(side, side) }
    }

    /// The square's four corners under the transform, counterclockwise seen
    /// from above, starting at the back-left one.
    pub fn vertices(&self, transform: &Transform3) -> (r: Vec<Vec3>)
        requires
            self.spec_rect().wf(),
            transform.wf(),
        ensures
            r@.len() == 4,
            forall|k: int|
                0 <= k < 4 ==> (#[trigger] r@[k]).x == self.spec_rect().spec_vertex_x(
                    *transform,
                    k,
                ) && r@[k].y == self.spec_rect().spec_vertex_y(*transform, k) && r@[k].z
                    == self.spec_rect().spec_vertex_z(*transform, k),
    {
        self.rect.vertices(transform)
    }

    /// The box spanned by the componentwise extremes of the four transformed
    /// corners.
    pub fn bounding_box(&self, transform: &Transform3) -> (r: Aabb)
        requires
            self.spec_rect().wf(),
            transform.wf(),
        ensures
            r.wf(),
            is_interval(
                r.center.x as int,
                r.extents.x as int,
                spec_min4(
                    self.spec_rect().spec_vertex_x(*transform, 0),
                    self.spec_rect().spec_vertex_x(*transform, 1),
                    self.spec_rect().spec_vertex_x(*transform, 2),
                    self.spec_rect().spec_vertex_x(*transform, 3),
                ),
                spec_max4(
                    self.spec_rect().spec_vertex_x(*transform, 0),
                    self.spec_rect().spec_vertex_x(*transform, 1),
                    self.spec_rect().spec_vertex_x(*transform, 2),
                    self.spec_rect().spec_vertex_x(*transform, 3),
                ),
            ),
            is_interval(
                r.center.y as int,
                r.extents.y as int,
                spec_min4(
                    self.spec_rect().spec_vertex_y(*transform, 0),
                    self.spec_rect().spec_vertex_y(*transform, 1),
                    self.spec_rect().spec_vertex_y(*transform, 2),
                    self.spec_rect().spec_vertex_y(*transform, 3),
                ),
                spec_max4(
                    self.spec_rect().spec_vertex_y(*transform, 0),
                    self.spec_rect().spec_vertex_y(*transform, 1),
                    self.spec_rect().spec_vertex_y(*transform, 2),
                    self.spec_rect().spec_vertex_y(*transform, 3),
                ),
            ),
            is_interval(
                r.center.z as int,
                r.extents.z as int,
                spec_min4(
                    self.spec_rect().spec_vertex_z(*transform, 0),
                    self.spec_rect().spec_vertex_z(*transform, 1),
                    self.spec_rect().spec_vertex_z(*transform, 2),
                    self.spec_rect().spec_vertex_z(*transform, 3),
                ),
                spec_max4(
                    self.spec_rect().spec_vertex_z(*transform, 0),
                    self.spec_rect().spec_vertex_z(*transform, 1),
                    self.spec_rect().spec_vertex_z(*transform, 2),
                    self.spec_rect().spec_vertex_z(*transform, 3),
                ),
            ),
    {
        self.rect.bounding_box(transform)
    }
}

} // verus!
