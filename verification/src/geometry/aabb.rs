//! Axis-aligned bounding boxes: construction, merging, rigid transformation,
//! point and face queries, and subdivision into octants.
//!
//! A box is kept as a center and non-negative half-extents; its corners are
//! derived, never stored.  An extent equal to `INF` marks the axis as
//! unbounded.  Boxes built from two corners round conservatively: the center
//! is the floor of the midpoint and the extent the ceiling of the half-span,
//! so the stored box always covers the requested corners (it may reach one
//! unit below the lower corner when the corner sum is odd).

use vstd::prelude::*;
use vstd::arithmetic::div_mod::{lemma_fundamental_div_mod, lemma_fundamental_div_mod_converse_div};
use crate::types::{Face, Octants, Transform3, Vec3, spec_apply_row};
use crate::utils::scalar::{
    almost_eq, div2_ceil, div2_floor, max2, min2, spec_almost_eq, INF, MAX_MERGE_LEN, MAX_SPAN,
    WIDE_ROOM,
};

verus! {

/// An axis-aligned box.
#[derive(Clone, Copy, PartialEq, Eq, Structural, Debug)]
pub struct Aabb {
    pub center: Vec3,
    /// center + extent = corner (i.e. half side len)
    pub extents: Vec3,
}

/// The smaller of two mathematical integers.
pub open spec fn spec_min2(a: int, b: int) -> int {
    if a <= b {
        a
    } else {
        b
    }
}

/// The larger of two mathematical integers.
pub open spec fn spec_max2(a: int, b: int) -> int {
    if a >= b {
        a
    } else {
        b
    }
}

/// Absolute value of a mathematical integer.
pub open spec fn spec_abs(v: int) -> int {
    if v >= 0 {
        v
    } else {
        -v
    }
}

/// Center of the box spanned by corner coordinates `a` and `b` on one axis:
/// the floor of their midpoint.
pub open spec fn spec_axis_center(a: int, b: int) -> int {
    (a + b) / 2
}

/// Half-extent of the box spanned by corner coordinates `a` and `b` on one
/// axis: the ceiling of half their distance.
pub open spec fn spec_axis_extent(a: int, b: int) -> int {
    (spec_abs(a - b) + 1) / 2
}

/// A half-extent is valid when it is non-negative and no wider than `INF`.
pub open spec fn axis_wf(e: int) -> bool {
    0 <= e <= INF
}

/// On one axis, a box is bounded when its center (for an unbounded axis) or
/// its two corners (for a finite one) stay within `limit`.
pub open spec fn axis_within(c: int, e: int, limit: int) -> bool {
    if e == INF {
        -limit <= c <= limit
    } else {
        -limit <= c - e && c + e <= limit
    }
}

/// One axis of a merge: an unbounded input axis makes the output axis
/// unbounded (centered at the origin); two finite axes are spanned by the
/// smallest corner interval covering both.
pub open spec fn spec_merge_axis(c1: int, e1: int, c2: int, e2: int) -> (int, int) {
    if e1 == INF || e2 == INF {
        (0, INF as int)
    } else {
        let lo = spec_min2(c1 - e1, c2 - e2);
        let hi = spec_max2(c1 + e1, c2 + e2);
        (spec_axis_center(lo, hi), spec_axis_extent(lo, hi))
    }
}

/// A point is inside an axis interval when the axis is unbounded or the
/// offset from the center is at most the extent (closed boundary).
pub open spec fn spec_axis_contains(c: int, e: int, p: int) -> bool {
    e == INF || (c - e <= p <= c + e)
}

/// `c` and `e` are exactly the center and extent of the interval spanned by
/// corner coordinates `p` and `q`.
pub open spec fn is_interval(c: int, e: int, p: int, q: int) -> bool {
    c == spec_axis_center(p, q) && e == spec_axis_extent(p, q)
}

/// `r` holds exactly the box spanned by corners `a` and `b`.
pub open spec fn is_box_of_corners(r: Aabb, a: Vec3, b: Vec3) -> bool {
    &&& r.center.x == spec_axis_center(a.x as int, b.x as int)
    &&& r.center.y == spec_axis_center(a.y as int, b.y as int)
    &&& r.center.z == spec_axis_center(a.z as int, b.z as int)
    &&& r.extents.x == spec_axis_extent(a.x as int, b.x as int)
    &&& r.extents.y == spec_axis_extent(a.y as int, b.y as int)
    &&& r.extents.z == spec_axis_extent(a.z as int, b.z as int)
}

/// `r` is exactly the merge of `a` and `b`.
pub open spec fn is_merge(r: Aabb, a: Aabb, b: Aabb) -> bool {
    &&& (r.center.x as int, r.extents.x as int) == spec_merge_axis(
        a.center.x as int,
        a.extents.x as int,
        b.center.x as int,
        b.extents.x as int,
    )
    &&& (r.center.y as int, r.extents.y as int) == spec_merge_axis(
        a.center.y as int,
        a.extents.y as int,
        b.center.y as int,
        b.extents.y as int,
    )
    &&& (r.center.z as int, r.extents.z as int) == spec_merge_axis(
        a.center.z as int,
        a.extents.z as int,
        b.center.z as int,
        b.extents.z as int,
    )
}

/// `o` holds exactly the eight octants of `a`: each octant spans, on each
/// axis, either the lower half `[lo, center]` or the upper half
/// `[center, hi]` of the parent, as its name says (top/bottom on y,
/// front/back on z, left/right on x).
pub open spec fn is_partition(o: Octants<Aabb>, a: Aabb) -> bool {
    &&& is_octant(o.tfl, a, false, true, true)
    &&& is_octant(o.tfr, a, true, true, true)
    &&& is_octant(o.tbl, a, false, true, false)
    &&& is_octant(o.tbr, a, true, true, false)
    &&& is_octant(o.bfl, a, false, false, true)
    &&& is_octant(o.bfr, a, true, false, true)
    &&& is_octant(o.bbl, a, false, false, false)
    &&& is_octant(o.bbr, a, true, false, false)
}

/// `b` is the octant of `a` taking the upper (`true`) or lower (`false`)
/// half on the x, y and z axis respectively.
pub open spec fn is_octant(b: Aabb, a: Aabb, upx: bool, upy: bool, upz: bool) -> bool {
    &&& is_half_interval(b.center.x as int, b.extents.x as int, a.center.x as int, a.extents.x as int, upx)
    &&& is_half_interval(b.center.y as int, b.extents.y as int, a.center.y as int, a.extents.y as int, upy)
    &&& is_half_interval(b.center.z as int, b.extents.z as int, a.center.z as int, a.extents.z as int, upz)
}

/// `(c, e)` spans the upper or lower half of the interval `(c0, e0)`.
pub open spec fn is_half_interval(c: int, e: int, c0: int, e0: int, upper: bool) -> bool {
    if upper {
        is_interval(c, e, c0, c0 + e0)
    } else {
        is_interval(c, e, c0 - e0, c0)
    }
}

impl Aabb {
    /// The invariant of every box: non-negative half-extents on every axis.
    pub open spec fn wf(self) -> bool {
        axis_wf(self.extents.x as int) && axis_wf(self.extents.y as int) && axis_wf(
            self.extents.z as int,
        )
    }

    /// Every axis of the box stays within `MAX_SPAN`.
    pub open spec fn bounded(self) -> bool {
        self.within(MAX_SPAN as int)
    }

    /// Every axis of the box stays within `limit`.
    pub open spec fn within(self, limit: int) -> bool {
        axis_within(self.center.x as int, self.extents.x as int, limit) && axis_within(
            self.center.y as int,
            self.extents.y as int,
            limit,
        ) && axis_within(self.center.z as int, self.extents.z as int, limit)
    }

    /// Some axis is unbounded.
    pub open spec fn spec_infinite(self) -> bool {
        self.extents.x == INF || self.extents.y == INF || self.extents.z == INF
    }

    /// The point lies in the box (boundary included; an unbounded axis
    /// contains every coordinate).
    pub open spec fn spec_contains(self, p: Vec3) -> bool {
        spec_axis_contains(self.center.x as int, self.extents.x as int, p.x as int)
            && spec_axis_contains(self.center.y as int, self.extents.y as int, p.y as int)
            && spec_axis_contains(self.center.z as int, self.extents.z as int, p.z as int)
    }

    pub fn new(center: Vec3, extents: Vec3) -> (r: Aabb)
        requires
            axis_wf(extents.x as int),
            axis_wf(extents.y as int),
            axis_wf(extents.z as int),
            axis_within(center.x as int, extents.x as int, MAX_SPAN as int),
            axis_within(center.y as int, extents.y as int, MAX_SPAN as int),
            axis_within(center.z as int, extents.z as int, MAX_SPAN as int),
        ensures
            r == (Aabb { center, extents }),
            r.wf(),
            r.bounded(),
    {
        Aabb { center, extents }
    }

    /// Builds the box spanned by two arbitrary (not necessarily ordered)
    /// corner points.
    pub fn new_min_max(min: Vec3, max: Vec3) -> (r: Aabb)
        requires
            min.in_range(),
            max.in_range(),
        ensures
            is_box_of_corners(r, min, max),
            r.wf(),
            r.bounded(),
    {
        let r = box_of_corners(&min, &max);
        proof {
            lemma_axis_corners(min.x as int, max.x as int);
            lemma_axis_corners(min.y as int, max.y as int);
            lemma_axis_corners(min.z as int, max.z as int);
        }
        r
    }

    /// Lower corner, `center - extents` on every axis.
    pub fn min(&self) -> (r: Vec3)
        requires
            self.wf(),
            self.bounded(),
        ensures
            r.x == self.center.x - self.extents.x,
            r.y == self.center.y - self.extents.y,
            r.z == self.center.z - self.extents.z,
    {
        Vec3 {
            x: self.center.x - self.extents.x,
            y: self.center.y - self.extents.y,
            z: self.center.z - self.extents.z,
        }
    }

    /// Upper corner, `center + extents` on every axis.
    pub fn max(&self) -> (r: Vec3)
        requires
            self.wf(),
            self.bounded(),
        ensures
            r.x == self.center.x + self.extents.x,
            r.y == self.center.y + self.extents.y,
            r.z == self.center.z + self.extents.z,
    {
        Vec3 {
            x: self.center.x + self.extents.x,
            y: self.center.y + self.extents.y,
            z: self.center.z + self.extents.z,
        }
    }

    /// A box unbounded on every axis, centered at the origin.
    pub fn new_infinite() -> (r: Aabb)
        ensures
            r.center == (Vec3 { x: 0, y: 0, z: 0 }),
            r.extents == (Vec3 { x: INF, y: INF, z: INF }),
            r.spec_infinite(),
            r.wf(),
            r.bounded(),
    {
        Aabb {
            center: Vec3 { x: 0, y: 0, z: 0 },
            extents: Vec3 { x: INF, y: INF, z: INF },
        }
    }

    /// Reports whether any axis is unbounded.
    pub fn is_infinite(&self) -> (r: bool)
        ensures
            r == self.spec_infinite(),
    {
        self.extents.x == INF || self.extents.y == INF || self.extents.z == INF
    }

    /// Reports whether the point lies in the box, boundary included.
    pub fn contains(&self, point: &Vec3) -> (r: bool)
        ensures
            r == self.spec_contains(*point),
    {
        axis_contains(self.center.x, self.extents.x, point.x) && axis_contains(
            self.center.y,
            self.extents.y,
            point.y,
        ) && axis_contains(self.center.z, self.extents.z, point.z)
    }
}

/// The merge of a sequence of boxes, folded pairwise from `acc` over the
/// elements from position `i` on.
pub open spec fn spec_merge_fold(s: Seq<Aabb>, acc: Aabb, i: int) -> Aabb
    decreases s.len() - i,
{
    if i < 0 || i >= s.len() {
        acc
    } else {
        spec_merge_fold(s, spec_merge(acc, s[i]), i + 1)
    }
}

/// The merge of two boxes, assembled axis by axis.
pub open spec fn spec_merge(a: Aabb, b: Aabb) -> Aabb {
    let mx = spec_merge_axis(a.center.x as int, a.extents.x as int, b.center.x as int, b.extents.x as int);
    let my = spec_merge_axis(a.center.y as int, a.extents.y as int, b.center.y as int, b.extents.y as int);
    let mz = spec_merge_axis(a.center.z as int, a.extents.z as int, b.center.z as int, b.extents.z as int);
    Aabb {
        center: Vec3 { x: mx.0 as i64, y: my.0 as i64, z: mz.0 as i64 },
        extents: Vec3 { x: mx.1 as i64, y: my.1 as i64, z: mz.1 as i64 },
    }
}

impl Aabb {
    /// The smallest box containing both inputs.
    pub(crate) fn merge_two_aabbs(a: &Aabb, b: &Aabb) -> (r: Aabb)
        requires
            a.wf(),
            b.wf(),
            a.within(WIDE_ROOM as int),
            b.within(WIDE_ROOM as int),
        ensures
            r == spec_merge(*a, *b),
            is_merge(r, *a, *b),
            r.wf(),
    {
        let (cx, ex) = merge_axis(a.center.x, a.extents.x, b.center.x, b.extents.x);
        let (cy, ey) = merge_axis(a.center.y, a.extents.y, b.center.y, b.extents.y);
        let (cz, ez) = merge_axis(a.center.z, a.extents.z, b.center.z, b.extents.z);
        Aabb { center: Vec3 { x: cx, y: cy, z: cz }, extents: Vec3 { x: ex, y: ey, z: ez } }
    }

    /// Left fold of pairwise merge over a non-empty slice of boxes; a
    /// singleton comes back unchanged.  The result contains every point that
    /// any input contains.
    pub fn merge_aabbs(aabbs: &[Aabb]) -> (r: Aabb)
        requires
            aabbs@.len() >= 1,
            aabbs@.len() <= MAX_MERGE_LEN,
            forall|i: int|
                0 <= i < aabbs@.len() ==> (#[trigger] aabbs@[i]).wf() && aabbs@[i].bounded(),
        ensures
            r == if aabbs@.len() == 1 {
                aabbs@[0]
            } else {
                spec_merge_fold(aabbs@, aabbs@[0], 0)
            },
            r.wf(),
            forall|i: int, p: Vec3|
                0 <= i < aabbs@.len() && #[trigger] aabbs@[i].spec_contains(p)
                    ==> r.spec_contains(p),
    {
        if aabbs.len() == 1 {
            aabbs[0]
        } else {
            let ghost s = aabbs@;
            let mut aabb = aabbs[0];
            let mut i: usize = 0;
            while i < aabbs.len()
                invariant
                    0 <= i <= s.len(),
                    1 <= s.len() <= MAX_MERGE_LEN,
                    aabbs@ == s,
                    forall|j: int| 0 <= j < s.len() ==> (#[trigger] s[j]).wf() && s[j].bounded(),
                    aabb.wf(),
                    aabb.within(MAX_SPAN + i as int),
                    spec_merge_fold(s, aabb, i as int) == spec_merge_fold(s, s[0], 0),
                    forall|j: int, p: Vec3|
                        0 <= j < i && #[trigger] s[j].spec_contains(p) ==> aabb.spec_contains(p),
                decreases s.len() - i,
            {
                let ghost prev = aabb;
                proof {
                    lemma_within_widen(aabb, MAX_SPAN + i as int, WIDE_ROOM as int);
                    lemma_within_widen(s[i as int], MAX_SPAN as int, WIDE_ROOM as int);
                }
                aabb = Aabb::merge_two_aabbs(&aabb, &aabbs[i]);
                proof {
                    lemma_merge_within(prev, s[i as int], aabb, MAX_SPAN + i as int);
                    assert forall|j: int, p: Vec3|
                        0 <= j < i + 1 && #[trigger] s[j].spec_contains(p)
                            implies aabb.spec_contains(p) by {
                        if j < i {
                            lemma_merge_contains(prev, s[i as int], aabb, p);
                        } else {
                            lemma_merge_contains(prev, s[j], aabb, p);
                        }
                    }
                }
                i = i + 1;
            }
            aabb
        }
    }
}

/// Merging never shrinks: any point contained in either input is contained in
/// the merge.
pub proof fn lemma_merge_contains(a: Aabb, b: Aabb, m: Aabb, p: Vec3)
    requires
        a.wf(),
        b.wf(),
        is_merge(m, a, b),
        a.spec_contains(p) || b.spec_contains(p),
    ensures
        m.spec_contains(p),
{
    lemma_merge_axis_contains(
        a.center.x as int, a.extents.x as int, b.center.x as int, b.extents.x as int, p.x as int,
    );
    lemma_merge_axis_contains(
        a.center.y as int, a.extents.y as int, b.center.y as int, b.extents.y as int, p.y as int,
    );
    lemma_merge_axis_contains(
        a.center.z as int, a.extents.z as int, b.center.z as int, b.extents.z as int, p.z as int,
    );
    lemma_contains_mono(a, b, m, p);
}

/// Law: the merge is tight.  On every axis where both inputs are finite, the
/// merged upper corner is exactly the larger of the two upper corners, and
/// the merged lower corner is the smaller of the two lower corners, reached
/// exactly or overshot by one unit of rounding; so no box more than one unit
/// smaller on any side contains both inputs.
pub proof fn lemma_merge_tight(a: Aabb, b: Aabb, m: Aabb)
    requires
        a.wf(),
        b.wf(),
        is_merge(m, a, b),
        !a.spec_infinite(),
        !b.spec_infinite(),
    ensures
        m.hi_x() == spec_max2(a.hi_x(), b.hi_x()),
        m.hi_y() == spec_max2(a.hi_y(), b.hi_y()),
        m.hi_z() == spec_max2(a.hi_z(), b.hi_z()),
        spec_min2(a.lo_x(), b.lo_x()) - 1 <= m.lo_x() <= spec_min2(a.lo_x(), b.lo_x()),
        spec_min2(a.lo_y(), b.lo_y()) - 1 <= m.lo_y() <= spec_min2(a.lo_y(), b.lo_y()),
        spec_min2(a.lo_z(), b.lo_z()) - 1 <= m.lo_z() <= spec_min2(a.lo_z(), b.lo_z()),
{
    lemma_axis_corners(spec_min2(a.lo_x(), b.lo_x()), spec_max2(a.hi_x(), b.hi_x()));
    lemma_axis_corners(spec_min2(a.lo_y(), b.lo_y()), spec_max2(a.hi_y(), b.hi_y()));
    lemma_axis_corners(spec_min2(a.lo_z(), b.lo_z()), spec_max2(a.hi_z(), b.hi_z()));
}

/// One axis of the merge-containment law, over unbounded integers.
proof fn lemma_merge_axis_contains(c1: int, e1: int, c2: int, e2: int, p: int)
    ensures
        spec_axis_contains(c1, e1, p) || spec_axis_contains(c2, e2, p)
            ==> spec_axis_contains(
            spec_merge_axis(c1, e1, c2, e2).0,
            spec_merge_axis(c1, e1, c2, e2).1,
            p,
        ),
{
    if e1 != INF && e2 != INF {
        let lo = spec_min2(c1 - e1, c2 - e2);
        let hi = spec_max2(c1 + e1, c2 + e2);
        lemma_axis_corners(lo, hi);
    }
}

/// A point-for-point corollary used to move containment from axis level to
/// box level.
proof fn lemma_contains_mono(a: Aabb, b: Aabb, m: Aabb, p: Vec3)
    requires
        is_merge(m, a, b),
        spec_axis_contains(a.center.x as int, a.extents.x as int, p.x as int)
            || spec_axis_contains(b.center.x as int, b.extents.x as int, p.x as int)
            ==> spec_axis_contains(m.center.x as int, m.extents.x as int, p.x as int),
        spec_axis_contains(a.center.y as int, a.extents.y as int, p.y as int)
            || spec_axis_contains(b.center.y as int, b.extents.y as int, p.y as int)
            ==> spec_axis_contains(m.center.y as int, m.extents.y as int, p.y as int),
        spec_axis_contains(a.center.z as int, a.extents.z as int, p.z as int)
            || spec_axis_contains(b.center.z as int, b.extents.z as int, p.z as int)
            ==> spec_axis_contains(m.center.z as int, m.extents.z as int, p.z as int),
        a.spec_contains(p) || b.spec_contains(p),
    ensures
        m.spec_contains(p),
{
}

/// A box within a tight limit is within any looser one.
proof fn lemma_within_widen(a: Aabb, tight: int, loose: int)
    requires
        a.within(tight),
        tight <= loose,
    ensures
        a.within(loose),
{
}

/// The merge of boxes within `limit` is within `limit + 1`.
proof fn lemma_merge_within(a: Aabb, b: Aabb, m: Aabb, limit: int)
    requires
        a.wf(),
        b.wf(),
        a.within(limit),
        b.within(limit),
        0 <= limit,
        limit + 1 <= WIDE_ROOM,
        is_merge(m, a, b),
    ensures
        m.wf(),
        m.within(limit + 1),
{
    lemma_merge_axis_within(a.center.x as int, a.extents.x as int, b.center.x as int, b.extents.x as int, limit);
    lemma_merge_axis_within(a.center.y as int, a.extents.y as int, b.center.y as int, b.extents.y as int, limit);
    lemma_merge_axis_within(a.center.z as int, a.extents.z as int, b.center.z as int, b.extents.z as int, limit);
}

/// One axis of `lemma_merge_within`.
proof fn lemma_merge_axis_within(c1: int, e1: int, c2: int, e2: int, limit: int)
    requires
        axis_wf(e1),
        axis_wf(e2),
        axis_within(c1, e1, limit),
        axis_within(c2, e2, limit),
        0 <= limit,
        limit + 1 <= WIDE_ROOM,
    ensures
        axis_wf(spec_merge_axis(c1, e1, c2, e2).1),
        axis_within(spec_merge_axis(c1, e1, c2, e2).0, spec_merge_axis(c1, e1, c2, e2).1, limit + 1),
{
    if e1 != INF && e2 != INF {
        let lo = spec_min2(c1 - e1, c2 - e2);
        let hi = spec_max2(c1 + e1, c2 + e2);
        lemma_axis_corners(lo, hi);
    }
}

/// One axis of the merge, with the unbounded sentinel handled explicitly.
fn merge_axis(c1: i64, e1: i64, c2: i64, e2: i64) -> (r: (i64, i64))
    requires
        axis_wf(e1 as int),
        axis_wf(e2 as int),
        axis_within(c1 as int, e1 as int, WIDE_ROOM as int),
        axis_within(c2 as int, e2 as int, WIDE_ROOM as int),
    ensures
        (r.0 as int, r.1 as int) == spec_merge_axis(c1 as int, e1 as int, c2 as int, e2 as int),
        axis_wf(r.1 as int),
{
    if e1 == INF || e2 == INF {
        (0, INF)
    } else {
        let lo = min2(c1 - e1, c2 - e2);
        let hi = max2(c1 + e1, c2 + e2);
        let c = div2_floor(lo + hi);
        let e = div2_ceil(hi - lo);
        proof {
            lemma_axis_corners(lo as int, hi as int);
        }
        (c, e)
    }
}

/// One axis of `contains`.
fn axis_contains(c: i64, e: i64, p: i64) -> (r: bool)
    ensures
        r == spec_axis_contains(c as int, e as int, p as int),
{
    if e == INF {
        true
    } else {
        let d: i128 = p as i128 - c as i128;
        -(e as i128) <= d && d <= e as i128
    }
}

/// Center and extent of the interval spanned by corner coordinates `p` and
/// `q` on one axis.
fn axis_of_corners(p: i64, q: i64) -> (r: (i64, i64))
    requires
        -WIDE_ROOM <= p <= WIDE_ROOM,
        -WIDE_ROOM <= q <= WIDE_ROOM,
    ensures
        r.0 == spec_axis_center(p as int, q as int),
        r.1 == spec_axis_extent(p as int, q as int),
{
    let lo = min2(p, q);
    let hi = max2(p, q);
    let c = div2_floor(lo + hi);
    let e = div2_ceil(hi - lo);
    (c, e)
}

/// The box spanned by two corner points, built one axis at a time.
pub(crate) fn box_of_corners(a: &Vec3, b: &Vec3) -> (r: Aabb)
    requires
        -WIDE_ROOM <= a.x <= WIDE_ROOM && -WIDE_ROOM <= a.y <= WIDE_ROOM && -WIDE_ROOM <= a.z
            <= WIDE_ROOM,
        -WIDE_ROOM <= b.x <= WIDE_ROOM && -WIDE_ROOM <= b.y <= WIDE_ROOM && -WIDE_ROOM <= b.z
            <= WIDE_ROOM,
    ensures
        is_box_of_corners(r, *a, *b),
        r.wf(),
{
    let (cx, ex) = axis_of_corners(a.x, b.x);
    let (cy, ey) = axis_of_corners(a.y, b.y);
    let (cz, ez) = axis_of_corners(a.z, b.z);
    proof {
        lemma_axis_corners(a.x as int, b.x as int);
        lemma_axis_corners(a.y as int, b.y as int);
        lemma_axis_corners(a.z as int, b.z as int);
    }
    Aabb { center: Vec3 { x: cx, y: cy, z: cz }, extents: Vec3 { x: ex, y: ey, z: ez } }
}

impl Aabb {
    /// Lower corner coordinate on the x axis.
    pub open spec fn lo_x(self) -> int {
        self.center.x - self.extents.x
    }

    /// Lower corner coordinate on the y axis.
    pub open spec fn lo_y(self) -> int {
        self.center.y - self.extents.y
    }

    /// Lower corner coordinate on the z axis.
    pub open spec fn lo_z(self) -> int {
        self.center.z - self.extents.z
    }

    /// Upper corner coordinate on the x axis.
    pub open spec fn hi_x(self) -> int {
        self.center.x + self.extents.x
    }

    /// Upper corner coordinate on the y axis.
    pub open spec fn hi_y(self) -> int {
        self.center.y + self.extents.y
    }

    /// Upper corner coordinate on the z axis.
    pub open spec fn hi_z(self) -> int {
        self.center.z + self.extents.z
    }

    /// Which face of the box the point lies on, within tolerance of the face
    /// plane, the first match winning in the fixed order Top, Bottom, Front,
    /// Back, Left, Right; `None` when it is near none of the six planes.
    pub open spec fn spec_face(self, p: Vec3) -> Option<Face> {
        if spec_almost_eq(p.y as int, self.hi_y()) {
            Some(Face::Top)
        } else if spec_almost_eq(p.y as int, self.lo_y()) {
            Some(Face::Bottom)
        } else if spec_almost_eq(p.z as int, self.hi_z()) {
            Some(Face::Front)
        } else if spec_almost_eq(p.z as int, self.lo_z()) {
            Some(Face::Back)
        } else if spec_almost_eq(p.x as int, self.lo_x()) {
            Some(Face::Left)
        } else if spec_almost_eq(p.x as int, self.hi_x()) {
            Some(Face::Right)
        } else {
            None
        }
    }

    /// Classifies a point presumed to lie on the boundary as belonging to one
    /// of the six faces, by a tolerance test on the distance to each face
    /// plane; ties on edges and corners go to the first face in the fixed
    /// order Top, Bottom, Front, Back, Left, Right.
    pub fn face(&self, point: &Vec3) -> (r: Option<Face>)
        requires
            self.wf(),
            self.bounded(),
        ensures
            r == self.spec_face(*point),
    {
        let max = self.max();
        let min = self.min();
        if almost_eq(point.y, max.y) {
            Some(Face::Top)
        } else if almost_eq(point.y, min.y) {
            Some(Face::Bottom)
        } else if almost_eq(point.z, max.z) {
            Some(Face::Front)
        } else if almost_eq(point.z, min.z) {
            Some(Face::Back)
        } else if almost_eq(point.x, min.x) {
            Some(Face::Left)
        } else if almost_eq(point.x, max.x) {
            Some(Face::Right)
        } else {
            None
        }
    }

    /// Six of the eight corners: the lower corner, the four corners made by
    /// raising one or two of its coordinates to the upper corner's, and the
    /// upper corner.  This fixed, deliberately partial sample is what callers
    /// that only need boundary-adjacent points use; it is not all eight
    /// corners.
    pub fn points(&self) -> (r: Vec<Vec3>)
        requires
            self.wf(),
            self.bounded(),
        ensures
            r@.len() == 6,
            r@[0].x == self.lo_x() && r@[0].y == self.lo_y() && r@[0].z == self.lo_z(),
            r@[1].x == self.lo_x() && r@[1].y == self.lo_y() && r@[1].z == self.hi_z(),
            r@[2].x == self.lo_x() && r@[2].y == self.hi_y() && r@[2].z == self.lo_z(),
            r@[3].x == self.lo_x() && r@[3].y == self.hi_y() && r@[3].z == self.hi_z(),
            r@[4].x == self.hi_x() && r@[4].y == self.lo_y() && r@[4].z == self.lo_z(),
            r@[5].x == self.hi_x() && r@[5].y == self.hi_y() && r@[5].z == self.hi_z(),
    {
        let max = self.max();
        let min = self.min();
        let mut r: Vec<Vec3> = Vec::new();
        r.push(min);
        r.push(Vec3 { x: min.x, y: min.y, z: max.z });
        r.push(Vec3 { x: min.x, y: max.y, z: min.z });
        r.push(Vec3 { x: min.x, y: max.y, z: max.z });
        r.push(Vec3 { x: max.x, y: min.y, z: min.z });
        r.push(max);
        r
    }

    /// Applies a rigid transform to the center alone, leaving the extents
    /// unchanged.  This is exact only for transforms that keep the box's
    /// local axes aligned with the world axes; it is a deliberate
    /// approximation for rotating transforms, not a general oriented-box
    /// transform.
    pub fn transform(&self, t: &Transform3) -> (r: Aabb)
        requires
            self.wf(),
            t.wf(),
            self.center.in_range(),
        ensures
            r.extents == self.extents,
            r.center.x == spec_apply_row(t.rx, self.center, t.t.x as int),
            r.center.y == spec_apply_row(t.ry, self.center, t.t.y as int),
            r.center.z == spec_apply_row(t.rz, self.center, t.t.z as int),
            r.wf(),
    {
        Aabb { center: t.apply(&self.center), extents: self.extents }
    }

    /// Splits the box into eight same-shape octants meeting at its center.
    /// An unbounded box cannot be partitioned.
    pub fn partition(&self) -> (r: Octants<Aabb>)
        requires
            self.wf(),
            self.bounded(),
            !self.spec_infinite(),
        ensures
            is_partition(r, *self),
            r.tfl.wf() && r.tfr.wf() && r.tbl.wf() && r.tbr.wf(),
            r.bfl.wf() && r.bfr.wf() && r.bbl.wf() && r.bbr.wf(),
    {
        let center = self.center;
        let min = self.min();
        let max = self.max();
        Octants {
            tfl: box_of_corners(
                &Vec3 { x: min.x, y: center.y, z: center.z },
                &Vec3 { x: center.x, y: max.y, z: max.z },
            ),
            tfr: box_of_corners(&center, &max),
            tbl: box_of_corners(
                &Vec3 { x: min.x, y: center.y, z: min.z },
                &Vec3 { x: center.x, y: max.y, z: center.z },
            ),
            tbr: box_of_corners(
                &Vec3 { x: center.x, y: center.y, z: min.z },
                &Vec3 { x: max.x, y: max.y, z: center.z },
            ),
            bfl: box_of_corners(
                &Vec3 { x: min.x, y: min.y, z: center.z },
                &Vec3 { x: center.x, y: center.y, z: max.z },
            ),
            bfr: box_of_corners(
                &Vec3 { x: center.x, y: min.y, z: center.z },
                &Vec3 { x: max.x, y: center.y, z: max.z },
            ),
            bbl: box_of_corners(&min, &center),
            bbr: box_of_corners(
                &Vec3 { x: center.x, y: min.y, z: min.z },
                &Vec3 { x: max.x, y: center.y, z: center.z },
            ),
        }
    }
}

/// Exact corner arithmetic of an axis interval: the upper corner is hit
/// exactly; the lower corner is undershot by the parity of the corner sum.
pub proof fn lemma_axis_corners(a: int, b: int)
    ensures
        0 <= spec_axis_extent(a, b),
        spec_axis_center(a, b) + spec_axis_extent(a, b) == spec_max2(a, b),
        spec_axis_center(a, b) - spec_axis_extent(a, b) == spec_min2(a, b) - (a + b) % 2,
        -WIDE_ROOM <= a <= WIDE_ROOM && -WIDE_ROOM <= b <= WIDE_ROOM ==> spec_axis_extent(a, b)
            < INF,
{
    let lo = spec_min2(a, b);
    let hi = spec_max2(a, b);
    let s = a + b;
    let d = hi - lo;
    lemma_fundamental_div_mod(s, 2);
    lemma_fundamental_div_mod(d + 1, 2);
    assert(s == lo + hi);
    assert(d == spec_abs(a - b));
    assert(d + 1 == 2 * ((d + 1) / 2) + (d + 1) % 2);
    assert(s == 2 * (s / 2) + s % 2);
}

/// Law: corner order never matters to `new_min_max`; the two corner points
/// may come in either order and span the same box.
pub proof fn lemma_new_min_max_symmetric(a: Vec3, b: Vec3, r1: Aabb, r2: Aabb)
    requires
        is_box_of_corners(r1, a, b),
        is_box_of_corners(r2, b, a),
    ensures
        r1 == r2,
{
    assert(r1.center == r2.center);
    assert(r1.extents == r2.extents);
}

/// Law: the upper corner of `new_min_max(a, b)` is exactly the componentwise
/// maximum of the two inputs; the lower corner is exactly the componentwise
/// minimum whenever the corner sum is even on that axis, and otherwise covers
/// it from one unit below.
pub proof fn lemma_new_min_max_corners(a: Vec3, b: Vec3, r: Aabb)
    requires
        is_box_of_corners(r, a, b),
    ensures
        r.hi_x() == spec_max2(a.x as int, b.x as int),
        r.hi_y() == spec_max2(a.y as int, b.y as int),
        r.hi_z() == spec_max2(a.z as int, b.z as int),
        spec_min2(a.x as int, b.x as int) - 1 <= r.lo_x() <= spec_min2(a.x as int, b.x as int),
        spec_min2(a.y as int, b.y as int) - 1 <= r.lo_y() <= spec_min2(a.y as int, b.y as int),
        spec_min2(a.z as int, b.z as int) - 1 <= r.lo_z() <= spec_min2(a.z as int, b.z as int),
        (a.x + b.x) % 2 == 0 ==> r.lo_x() == spec_min2(a.x as int, b.x as int),
        (a.y + b.y) % 2 == 0 ==> r.lo_y() == spec_min2(a.y as int, b.y as int),
        (a.z + b.z) % 2 == 0 ==> r.lo_z() == spec_min2(a.z as int, b.z as int),
{
    lemma_axis_corners(a.x as int, b.x as int);
    lemma_axis_corners(a.y as int, b.y as int);
    lemma_axis_corners(a.z as int, b.z as int);
}

/// Law: a valid box has non-negative half-extents on every axis.
pub proof fn lemma_extents_nonnegative(a: Aabb)
    requires
        a.wf(),
    ensures
        a.extents.x >= 0,
        a.extents.y >= 0,
        a.extents.z >= 0,
{
}

/// Law: every boundary point `center + extents` scaled componentwise by
/// plus or minus one per axis lies in the box.
pub proof fn lemma_contains_boundary(a: Aabb, p: Vec3, sx: bool, sy: bool, sz: bool)
    requires
        a.wf(),
        p.x as int == if sx { a.hi_x() } else { a.lo_x() },
        p.y as int == if sy { a.hi_y() } else { a.lo_y() },
        p.z as int == if sz { a.hi_z() } else { a.lo_z() },
    ensures
        a.spec_contains(p),
{
}

/// Law: when the box's extents are even (and so halve exactly), its eight
/// octants each have half the parent's extent on every axis, the
/// bottom-back-left octant's lower corner is the parent's lower corner, the
/// top-front-right octant's upper corner is the parent's upper corner, and
/// the octants' union, as a point set, is exactly the parent.
pub proof fn lemma_partition_exact(a: Aabb, o: Octants<Aabb>)
    requires
        a.wf(),
        !a.spec_infinite(),
        is_partition(o, a),
        a.extents.x % 2 == 0,
        a.extents.y % 2 == 0,
        a.extents.z % 2 == 0,
    ensures
        o.tfl.extents.x == a.extents.x / 2 && o.tfl.extents.y == a.extents.y / 2
            && o.tfl.extents.z == a.extents.z / 2,
        o.tfr.extents.x == a.extents.x / 2 && o.tfr.extents.y == a.extents.y / 2
            && o.tfr.extents.z == a.extents.z / 2,
        o.tbl.extents.x == a.extents.x / 2 && o.tbl.extents.y == a.extents.y / 2
            && o.tbl.extents.z == a.extents.z / 2,
        o.tbr.extents.x == a.extents.x / 2 && o.tbr.extents.y == a.extents.y / 2
            && o.tbr.extents.z == a.extents.z / 2,
        o.bfl.extents.x == a.extents.x / 2 && o.bfl.extents.y == a.extents.y / 2
            && o.bfl.extents.z == a.extents.z / 2,
        o.bfr.extents.x == a.extents.x / 2 && o.bfr.extents.y == a.extents.y / 2
            && o.bfr.extents.z == a.extents.z / 2,
        o.bbl.extents.x == a.extents.x / 2 && o.bbl.extents.y == a.extents.y / 2
            && o.bbl.extents.z == a.extents.z / 2,
        o.bbr.extents.x == a.extents.x / 2 && o.bbr.extents.y == a.extents.y / 2
            && o.bbr.extents.z == a.extents.z / 2,
        o.bbl.lo_x() == a.lo_x() && o.bbl.lo_y() == a.lo_y() && o.bbl.lo_z() == a.lo_z(),
        o.tfr.hi_x() == a.hi_x() && o.tfr.hi_y() == a.hi_y() && o.tfr.hi_z() == a.hi_z(),
        forall|p: Vec3|
            a.spec_contains(p) <==> (o.tfl.spec_contains(p) || o.tfr.spec_contains(p)
                || o.tbl.spec_contains(p) || o.tbr.spec_contains(p) || o.bfl.spec_contains(p)
                || o.bfr.spec_contains(p) || o.bbl.spec_contains(p) || #[trigger] o.bbr.spec_contains(
                p,
            )),
{
    lemma_axis_halves(a.center.x as int, a.extents.x as int);
    lemma_axis_halves(a.center.y as int, a.extents.y as int);
    lemma_axis_halves(a.center.z as int, a.extents.z as int);
}

/// Law: octants overlap only on the shared boundary planes.  When the box's
/// extents are even, a point lying in two octants that take opposite halves
/// of some axis lies exactly on the parent's center plane of that axis.
pub proof fn lemma_octants_overlap_on_boundary(
    a: Aabb,
    b1: Aabb,
    b2: Aabb,
    p: Vec3,
    up1: (bool, bool, bool),
    up2: (bool, bool, bool),
)
    requires
        a.wf(),
        !a.spec_infinite(),
        a.extents.x % 2 == 0,
        a.extents.y % 2 == 0,
        a.extents.z % 2 == 0,
        is_octant(b1, a, up1.0, up1.1, up1.2),
        is_octant(b2, a, up2.0, up2.1, up2.2),
        b1.spec_contains(p),
        b2.spec_contains(p),
    ensures
        up1.0 != up2.0 ==> p.x == a.center.x,
        up1.1 != up2.1 ==> p.y == a.center.y,
        up1.2 != up2.2 ==> p.z == a.center.z,
{
    lemma_axis_halves(a.center.x as int, a.extents.x as int);
    lemma_axis_halves(a.center.y as int, a.extents.y as int);
    lemma_axis_halves(a.center.z as int, a.extents.z as int);
}

/// Halving one axis exactly: the lower and upper half-intervals of an
/// interval with even extent have extent `e0 / 2`, share the parent's
/// corners, and cover between them exactly the parent's coordinates.
proof fn lemma_axis_halves(c0: int, e0: int)
    requires
        0 <= e0 < INF,
        e0 % 2 == 0,
    ensures
        spec_axis_center(c0 - e0, c0) == c0 - e0 / 2,
        spec_axis_center(c0, c0 + e0) == c0 + e0 / 2,
        spec_axis_extent(c0 - e0, c0) == e0 / 2,
        spec_axis_extent(c0, c0 + e0) == e0 / 2,
        forall|p: int|
            spec_axis_contains(c0, e0, p) <==> (spec_axis_contains(c0 - e0 / 2, e0 / 2, p)
                || #[trigger] spec_axis_contains(c0 + e0 / 2, e0 / 2, p)),
{
    let k = e0 / 2;
    lemma_fundamental_div_mod(e0, 2);
    lemma_div_of_double(c0 - k);
    lemma_div_of_double(c0 + k);
    lemma_div_of_double_plus_one(k);
    assert(2 * k == e0);
    assert(spec_axis_center(c0 - e0, c0) == (2 * (c0 - k)) / 2);
    assert(spec_axis_center(c0, c0 + e0) == (2 * (c0 + k)) / 2);
    assert(spec_axis_extent(c0 - e0, c0) == (2 * k + 1) / 2);
    assert(spec_axis_extent(c0, c0 + e0) == (2 * k + 1) / 2);
}

/// `(2v) / 2 == v` for the Euclidean division of specifications.
proof fn lemma_div_of_double(v: int)
    ensures
        (2 * v) / 2 == v,
{
    lemma_fundamental_div_mod_converse_div(2 * v, 2, v, 0);
}

/// `(2v + 1) / 2 == v` for the Euclidean division of specifications.
proof fn lemma_div_of_double_plus_one(v: int)
    ensures
        (2 * v + 1) / 2 == v,
{
    lemma_fundamental_div_mod_converse_div(2 * v + 1, 2, v, 1);
}

/// Law: a rigid transform with identity rotation and zero translation leaves
/// a box unchanged.
pub proof fn lemma_transform_identity(a: Aabb, r: Aabb)
    requires
        r.extents == a.extents,
        r.center.x == spec_apply_row(Transform3::spec_identity().rx, a.center, 0),
        r.center.y == spec_apply_row(Transform3::spec_identity().ry, a.center, 0),
        r.center.z == spec_apply_row(Transform3::spec_identity().rz, a.center, 0),
    ensures
        r == a,
{
    crate::types::lemma_identity_apply(a.center);
    assert(r.center == a.center);
}

} // verus!
