//! The value types shared by the geometry and camera components: fixed-point
//! vectors, rigid transforms, the six box faces and the eight octants.

use vstd::prelude::*;
use vstd::arithmetic::div_mod::{
    lemma_div_is_ordered, lemma_div_multiples_vanish, lemma_fundamental_div_mod_converse_div,
};
use crate::utils::scalar::{div_floor, in_coord_range, ONE, MAX_COORD};

verus! {

/// A point or direction: three fixed-point coordinates.
#[derive(Clone, Copy, PartialEq, Eq, Structural, Debug)]
pub struct Vec3 {
    pub x: i64,
    pub y: i64,
    pub z: i64,
}

/// A homogeneous four-component vector.
#[derive(Clone, Copy, PartialEq, Eq, Structural, Debug)]
pub struct Vec4 {
    pub x: i64,
    pub y: i64,
    pub z: i64,
    pub w: i64,
}

impl Vec3 {
    pub fn new(x: i64, y: i64, z: i64) -> (r: Vec3)
        ensures
            r == (Vec3 { x, y, z }),
    {
        Vec3 { x, y, z }
    }

    /// All three coordinates lie within the finite coordinate range.
    pub open spec fn in_range(self) -> bool {
        in_coord_range(self.x as int) && in_coord_range(self.y as int) && in_coord_range(
            self.z as int,
        )
    }
}

impl Vec4 {
    pub fn new(x: i64, y: i64, z: i64, w: i64) -> (r: Vec4)
        ensures
            r == (Vec4 { x, y, z, w }),
    {
        Vec4 { x, y, z, w }
    }
}

/// One of the six faces of an axis-aligned box.  `Top`/`Bottom` bound the y
/// axis, `Front`/`Back` the z axis, `Right`/`Left` the x axis.
#[derive(Clone, Copy, PartialEq, Eq, Structural, Debug)]
pub enum Face {
    Top,
    Bottom,
    Front,
    Back,
    Left,
    Right,
}

/// The eight named sub-volumes produced by splitting a box at its center:
/// top/bottom (y), front/back (z), left/right (x).
#[derive(Debug)]
pub struct Octants<T> {
    pub tfl: T,
    pub tfr: T,
    pub tbl: T,
    pub tbr: T,
    pub bfl: T,
    pub bfr: T,
    pub bbl: T,
    pub bbr: T,
}

/// A rigid (rotation plus translation) transform.  `rx`, `ry` and `rz` are the
/// rows of the rotation matrix, each entry a fixed-point number scaled by
/// `ONE`; `t` is the translation.
#[derive(Clone, Copy, PartialEq, Eq, Structural, Debug)]
pub struct Transform3 {
    pub rx: Vec3,
    pub ry: Vec3,
    pub rz: Vec3,
    pub t: Vec3,
}

/// The dot product of two vectors, before any rescaling.
pub open spec fn spec_dot(a: Vec3, b: Vec3) -> int {
    a.x * b.x + a.y * b.y + a.z * b.z
}

/// One output coordinate of a rigid transform: the scaled dot product of a
/// rotation row with the point, floored back to units, plus the translation.
pub open spec fn spec_apply_row(row: Vec3, p: Vec3, t: int) -> int {
    spec_dot(row, p) / (ONE as int) + t
}

/// Every entry of a rotation row represents a value in [-1, 1].
pub open spec fn spec_row_wf(row: Vec3) -> bool {
    &&& -ONE <= row.x <= ONE
    &&& -ONE <= row.y <= ONE
    &&& -ONE <= row.z <= ONE
}

impl Transform3 {
    /// Rotation entries represent values in [-1, 1] and the translation is a
    /// finite coordinate vector.
    pub open spec fn wf(self) -> bool {
        &&& spec_row_wf(self.rx)
        &&& spec_row_wf(self.ry)
        &&& spec_row_wf(self.rz)
        &&& self.t.in_range()
    }

    /// The transform that leaves every point unchanged.
    pub open spec fn spec_identity() -> Transform3 {
        Transform3 {
            rx: Vec3 { x: ONE, y: 0, z: 0 },
            ry: Vec3 { x: 0, y: ONE, z: 0 },
            rz: Vec3 { x: 0, y: 0, z: ONE },
            t: Vec3 { x: 0, y: 0, z: 0 },
        }
    }

    pub fn new(rx: Vec3, ry: Vec3, rz: Vec3, t: Vec3) -> (r: Transform3)
        ensures
            r == (Transform3 { rx, ry, rz, t }),
    {
        Transform3 { rx, ry, rz, t }
    }

    pub fn identity() -> (r: Transform3)
        ensures
            r == Transform3::spec_identity(),
            r.wf(),
    {
        Transform3 {
            rx: Vec3 { x: ONE, y: 0, z: 0 },
            ry: Vec3 { x: 0, y: ONE, z: 0 },
            rz: Vec3 { x: 0, y: 0, z: ONE },
            t: Vec3 { x: 0, y: 0, z: 0 },
        }
    }

    /// Applies the transform to a point.
    pub fn apply(&self, p: &Vec3) -> (r: Vec3)
        requires
            self.wf(),
            p.in_range(),
        ensures
            r.x == spec_apply_row(self.rx, *p, self.t.x as int),
            r.y == spec_apply_row(self.ry, *p, self.t.y as int),
            r.z == spec_apply_row(self.rz, *p, self.t.z as int),
            -4 * MAX_COORD <= r.x <= 4 * MAX_COORD,
            -4 * MAX_COORD <= r.y <= 4 * MAX_COORD,
            -4 * MAX_COORD <= r.z <= 4 * MAX_COORD,
    {
        Vec3 {
            x: apply_row(&self.rx, p, self.t.x),
            y: apply_row(&self.ry, p, self.t.y),
            z: apply_row(&self.rz, p, self.t.z),
        }
    }
}

/// Applying the identity transform moves no point.
pub proof fn lemma_identity_apply(p: Vec3)
    ensures
        spec_apply_row(Transform3::spec_identity().rx, p, 0) == p.x,
        spec_apply_row(Transform3::spec_identity().ry, p, 0) == p.y,
        spec_apply_row(Transform3::spec_identity().rz, p, 0) == p.z,
{
    lemma_mul_of_one_div_one(p.x as int);
    lemma_mul_of_one_div_one(p.y as int);
    lemma_mul_of_one_div_one(p.z as int);
}

proof fn lemma_mul_of_one_div_one(v: int)
    ensures
        (ONE * v) / (ONE as int) == v,
{
    lemma_fundamental_div_mod_converse_div(ONE * v, ONE as int, v, 0);
}

fn apply_row(row: &Vec3, p: &Vec3, t: i64) -> (r: i64)
    requires
        spec_row_wf(*row),
        p.in_range(),
        in_coord_range(t as int),
    ensures
        r == spec_apply_row(*row, *p, t as int),
        -4 * MAX_COORD <= r <= 4 * MAX_COORD,
{
    proof {
        lemma_term_bound(row.x as int, p.x as int);
        lemma_term_bound(row.y as int, p.y as int);
        lemma_term_bound(row.z as int, p.z as int);
    }
    let wide: i128 = row.x as i128 * p.x as i128 + row.y as i128 * p.y as i128 + row.z as i128
        * p.z as i128;
    let dot: i64 = wide as i64;
    proof {
        lemma_div_is_ordered(dot as int, (ONE as int) * (3 * MAX_COORD), ONE as int);
        lemma_div_is_ordered((ONE as int) * (-3 * MAX_COORD), dot as int, ONE as int);
        lemma_div_multiples_vanish(3 * MAX_COORD, ONE as int);
        lemma_div_multiples_vanish(-3 * MAX_COORD, ONE as int);
    }
    div_floor(dot, ONE) + t
}

proof fn lemma_term_bound(m: int, v: int)
    requires
        -ONE <= m <= ONE,
        in_coord_range(v),
    ensures
        -(ONE as int) * MAX_COORD <= m * v <= (ONE as int) * MAX_COORD,
{
    assert(-(ONE as int) * MAX_COORD <= m * v <= (ONE as int) * MAX_COORD) by (nonlinear_arith)
        requires
            -ONE <= m <= ONE,
            -MAX_COORD <= v <= MAX_COORD,
    ;
}

} // verus!
