//! The camera-transition animator: a time-parameterized interpolation between
//! two camera poses.
//!
//! A pose's orientation is a yaw rotation about the vertical axis and a pitch
//! rotation about the local horizontal axis.  A rotation about a fixed axis
//! is determined by its angle, composing two such rotations adds their
//! angles, and interpolating between two of them along the shortest path
//! interpolates the angle; so orientations are kept as fixed-point angles in
//! radians.  Positions ease in and out along an s-shaped curve with exact
//! endpoints; angles travel along the same eased parameter.  Nothing clamps
//! the time parameter: values outside the animation's span extrapolate, and
//! cutting the animation off at its end is the caller's business (see
//! `animation_step`).

use vstd::prelude::*;
use vstd::arithmetic::div_mod::{
    lemma_div_is_ordered, lemma_div_multiples_vanish, lemma_fundamental_div_mod_converse_div,
};
use crate::types::Vec3;
use crate::utils::scalar::{div_floor, div_floor_wide, in_coord_range, MAX_COORD, ONE};

verus! {

/// Half a turn, in fixed-point radians.
pub const PI_RAD: i64 = 205887;

/// A full turn, in fixed-point radians.
pub const TWO_PI_RAD: i64 = 411774;

/// Largest magnitude of the eased interpolation weight over the accepted
/// parameter range.
pub const MAX_WEIGHT: i64 = 0x4000_0000;

/// A camera pose: a position, a yaw angle about the vertical axis and a
/// pitch angle about the local horizontal axis, the angles in fixed-point
/// radians.
#[derive(Clone, Copy, PartialEq, Eq, Structural, Debug)]
pub struct CameraPose {
    pub pos: Vec3,
    pub yaw: i64,
    pub pitch: i64,
}

/// A yaw difference normalized into `(-PI_RAD, PI_RAD]` by one full turn.
pub open spec fn spec_wrap_yaw(dy: int) -> int {
    if dy > PI_RAD {
        dy - TWO_PI_RAD
    } else if dy <= -PI_RAD {
        dy + TWO_PI_RAD
    } else {
        dy
    }
}

/// The s-shaped easing curve: `0` at `0`, `ONE` at `ONE`, flat at both ends,
/// evaluated without clamping.
pub open spec fn spec_ease(t: int) -> int {
    (t * t * (3 * ONE - 2 * t)) / (ONE * ONE)
}

/// Interpolation from `a` to `b` by the fixed-point weight `w`.
pub open spec fn spec_lerp(a: int, b: int, w: int) -> int {
    a + ((b - a) * w) / (ONE as int)
}

/// Normalizes a raw yaw difference into `(-PI_RAD, PI_RAD]` by adding or
/// subtracting one full turn when it falls outside that range, so the
/// interpolated rotation never takes the long way around.
pub fn wrap_yaw(dy: i64) -> (r: i64)
    requires
        -TWO_PI_RAD <= dy <= TWO_PI_RAD,
    ensures
        r == spec_wrap_yaw(dy as int),
        -PI_RAD < r <= PI_RAD,
{
    if dy > PI_RAD {
        dy - TWO_PI_RAD
    } else if dy <= -PI_RAD {
        dy + TWO_PI_RAD
    } else {
        dy
    }
}

/// The pose of a camera transition at an arbitrary elapsed time: a cosine-like
/// eased run from a start pose to an end pose over a fixed duration.
#[derive(Clone, Copy, PartialEq, Eq, Structural, Debug)]
pub struct CameraAnimation {
    pub start_pos: Vec3,
    pub start_yaw: i64,
    pub start_pitch: i64,
    pub end_pos: Vec3,
    pub end_yaw: i64,
    pub end_pitch: i64,
    pub start_time: i64,
    pub duration: i64,
}

impl CameraAnimation {
    /// The invariant of every animation: a positive, bounded duration, and
    /// positions, angles and start time within the finite coordinate range.
    pub open spec fn wf(self) -> bool {
        &&& self.start_pos.in_range()
        &&& self.end_pos.in_range()
        &&& in_coord_range(self.start_yaw as int)
        &&& in_coord_range(self.end_yaw as int)
        &&& in_coord_range(self.start_pitch as int)
        &&& in_coord_range(self.end_pitch as int)
        &&& in_coord_range(self.start_time as int)
        &&& 0 < self.duration <= MAX_COORD
    }

    /// The normalized, eased interpolation parameter at `time`.
    pub open spec fn spec_param(self, time: int) -> int {
        ((time - self.start_time) * ONE) / (self.duration as int)
    }

    /// Builds the transition from the camera's pose at `start_time` to
    /// `end_position`, turning by the given raw yaw and pitch differences.
    /// The yaw difference is normalized into `(-PI_RAD, PI_RAD]` first, so
    /// the turn never takes the long way around; the end orientation is the
    /// start orientation with the normalized differences added.
    pub fn new(
        camera: &CameraPose,
        end_position: Vec3,
        yaw_diff: i64,
        pitch_diff: i64,
        start_time: i64,
        duration: i64,
    ) -> (r: CameraAnimation)
        requires
            camera.pos.in_range(),
            end_position.in_range(),
            -MAX_COORD + TWO_PI_RAD <= camera.yaw <= MAX_COORD - TWO_PI_RAD,
            -MAX_COORD + TWO_PI_RAD <= camera.pitch <= MAX_COORD - TWO_PI_RAD,
            -TWO_PI_RAD <= yaw_diff <= TWO_PI_RAD,
            -TWO_PI_RAD <= pitch_diff <= TWO_PI_RAD,
            in_coord_range(start_time as int),
            0 < duration <= MAX_COORD,
        ensures
            r.start_pos == camera.pos,
            r.start_yaw == camera.yaw,
            r.start_pitch == camera.pitch,
            r.end_pos == end_position,
            r.end_yaw == camera.yaw + spec_wrap_yaw(yaw_diff as int),
            r.end_pitch == camera.pitch + pitch_diff,
            r.start_time == start_time,
            r.duration == duration,
            r.wf(),
    {
        let wrapped = wrap_yaw(yaw_diff);
        CameraAnimation {
            start_pos: camera.pos,
            start_yaw: camera.yaw,
            start_pitch: camera.pitch,
            end_pos: end_position,
            end_yaw: camera.yaw + wrapped,
            end_pitch: camera.pitch + pitch_diff,
            start_time,
            duration,
        }
    }

    /// The position, yaw angle and pitch angle of the animation at `time`,
    /// eased between the start and end pose without clamping; times up to
    /// sixteen durations away from `start_time` extrapolate.
    pub fn at(&self, time: i64) -> (r: (Vec3, i64, i64))
        requires
            self.wf(),
            -16 * self.duration <= time - self.start_time <= 16 * self.duration,
        ensures
            r.0.x == spec_lerp(
                self.start_pos.x as int,
                self.end_pos.x as int,
                spec_ease(self.spec_param(time as int)),
            ),
            r.0.y == spec_lerp(
                self.start_pos.y as int,
                self.end_pos.y as int,
                spec_ease(self.spec_param(time as int)),
            ),
            r.0.z == spec_lerp(
                self.start_pos.z as int,
                self.end_pos.z as int,
                spec_ease(self.spec_param(time as int)),
            ),
            r.1 == spec_lerp(
                self.start_yaw as int,
                self.end_yaw as int,
                spec_ease(self.spec_param(time as int)),
            ),
            r.2 == spec_lerp(
                self.start_pitch as int,
                self.end_pitch as int,
                spec_ease(self.spec_param(time as int)),
            ),
    {
        let dt = time - self.start_time;
        let t = div_floor(dt * ONE, self.duration);
        proof {
            lemma_param_in_range(dt as int, self.duration as int);
        }
        let w = ease(t);
        (
            Vec3 {
                x: lerp(self.start_pos.x, self.end_pos.x, w),
                y: lerp(self.start_pos.y, self.end_pos.y, w),
                z: lerp(self.start_pos.z, self.end_pos.z, w),
            },
            lerp(self.start_yaw, self.end_yaw, w),
            lerp(self.start_pitch, self.end_pitch, w),
        )
    }

    /// The time at which the animation reaches its end pose.
    pub fn end_time(&self) -> (r: i64)
        requires
            self.wf(),
        ensures
            r == self.start_time + self.duration,
    {
        self.start_time + self.duration
    }
}

/// One frame's camera-animation decision, as the update loop owes it: at or
/// past the animation's end time the camera snaps exactly to the stored end
/// pose (not to an evaluation of `at`, which could drift by rounding) and the
/// animation is finished; before it, the camera takes the interpolated pose
/// and the animation goes on.
pub fn animation_step(anim: &CameraAnimation, elapsed: i64) -> (r: (CameraPose, bool))
    requires
        anim.wf(),
        -16 * anim.duration <= elapsed - anim.start_time <= 16 * anim.duration,
    ensures
        r.1 == (elapsed >= anim.start_time + anim.duration),
        r.1 ==> r.0 == (CameraPose {
            pos: anim.end_pos,
            yaw: anim.end_yaw,
            pitch: anim.end_pitch,
        }),
        !r.1 ==> {
            let w = spec_ease(anim.spec_param(elapsed as int));
            &&& r.0.pos.x == spec_lerp(anim.start_pos.x as int, anim.end_pos.x as int, w)
            &&& r.0.pos.y == spec_lerp(anim.start_pos.y as int, anim.end_pos.y as int, w)
            &&& r.0.pos.z == spec_lerp(anim.start_pos.z as int, anim.end_pos.z as int, w)
            &&& r.0.yaw == spec_lerp(anim.start_yaw as int, anim.end_yaw as int, w)
            &&& r.0.pitch == spec_lerp(anim.start_pitch as int, anim.end_pitch as int, w)
        },
{
    if elapsed >= anim.end_time() {
        (CameraPose { pos: anim.end_pos, yaw: anim.end_yaw, pitch: anim.end_pitch }, true)
    } else {
        let (pos, yaw, pitch) = anim.at(elapsed);
        (CameraPose { pos, yaw, pitch }, false)
    }
}

/// Law: the animation starts at the start pose and lands on the end pose.
/// Evaluating at `start_time` yields exactly the start position and angles;
/// evaluating at `start_time + duration` yields exactly the end position and
/// angles.
pub proof fn lemma_animation_boundary(a: CameraAnimation)
    requires
        a.wf(),
    ensures
        spec_lerp(
            a.start_pos.x as int,
            a.end_pos.x as int,
            spec_ease(a.spec_param(a.start_time as int)),
        ) == a.start_pos.x,
        spec_lerp(
            a.start_pos.y as int,
            a.end_pos.y as int,
            spec_ease(a.spec_param(a.start_time as int)),
        ) == a.start_pos.y,
        spec_lerp(
            a.start_pos.z as int,
            a.end_pos.z as int,
            spec_ease(a.spec_param(a.start_time as int)),
        ) == a.start_pos.z,
        spec_lerp(
            a.start_yaw as int,
            a.end_yaw as int,
            spec_ease(a.spec_param(a.start_time as int)),
        ) == a.start_yaw,
        spec_lerp(
            a.start_pitch as int,
            a.end_pitch as int,
            spec_ease(a.spec_param(a.start_time as int)),
        ) == a.start_pitch,
        spec_lerp(
            a.start_pos.x as int,
            a.end_pos.x as int,
            spec_ease(a.spec_param(a.start_time + a.duration)),
        ) == a.end_pos.x,
        spec_lerp(
            a.start_pos.y as int,
            a.end_pos.y as int,
            spec_ease(a.spec_param(a.start_time + a.duration)),
        ) == a.end_pos.y,
        spec_lerp(
            a.start_pos.z as int,
            a.end_pos.z as int,
            spec_ease(a.spec_param(a.start_time + a.duration)),
        ) == a.end_pos.z,
        spec_lerp(
            a.start_yaw as int,
            a.end_yaw as int,
            spec_ease(a.spec_param(a.start_time + a.duration)),
        ) == a.end_yaw,
        spec_lerp(
            a.start_pitch as int,
            a.end_pitch as int,
            spec_ease(a.spec_param(a.start_time + a.duration)),
        ) == a.end_pitch,
{
    let d = a.duration as int;
    lemma_zero_param(a);
    lemma_one_param(a);
    lemma_ease_endpoints();
    lemma_lerp_endpoints(a.start_pos.x as int, a.end_pos.x as int);
    lemma_lerp_endpoints(a.start_pos.y as int, a.end_pos.y as int);
    lemma_lerp_endpoints(a.start_pos.z as int, a.end_pos.z as int);
    lemma_lerp_endpoints(a.start_yaw as int, a.end_yaw as int);
    lemma_lerp_endpoints(a.start_pitch as int, a.end_pitch as int);
}

/// At `start_time` the normalized parameter is zero.
proof fn lemma_zero_param(a: CameraAnimation)
    requires
        a.wf(),
    ensures
        a.spec_param(a.start_time as int) == 0,
{
    lemma_div_multiples_vanish(0, a.duration as int);
    assert((a.start_time - a.start_time) * ONE == (a.duration as int) * 0) by (nonlinear_arith);
}

/// At `start_time + duration` the normalized parameter is exactly `ONE`.
proof fn lemma_one_param(a: CameraAnimation)
    requires
        a.wf(),
    ensures
        a.spec_param(a.start_time + a.duration) == ONE,
{
    lemma_div_multiples_vanish(ONE as int, a.duration as int);
    assert((a.start_time + a.duration - a.start_time) * ONE == (a.duration as int) * (ONE as int))
        by (nonlinear_arith);
}

/// The easing curve hits its endpoints exactly.
proof fn lemma_ease_endpoints()
    ensures
        spec_ease(0) == 0,
        spec_ease(ONE as int) == ONE,
{
    let u = ONE as int;
    assert(u * u == 0x1_0000_0000 && 0 * 0 * (3 * u - 2 * 0) == 0 && u * u * (3 * u - 2 * u)
        == 0x1_0000_0000_0000) by (nonlinear_arith)
        requires
            u == 0x1_0000,
    ;
    lemma_fundamental_div_mod_converse_div(0, u * u, 0, 0);
    lemma_fundamental_div_mod_converse_div(u * u * (3 * u - 2 * u), u * u, u, 0);
    assert(u * u * (3 * u - 2 * u) == (u * u) * u + 0) by (nonlinear_arith);
}

/// Interpolating by weight zero gives the start, by weight `ONE` the end.
proof fn lemma_lerp_endpoints(a: int, b: int)
    ensures
        spec_lerp(a, b, 0) == a,
        spec_lerp(a, b, ONE as int) == b,
{
    lemma_fundamental_div_mod_converse_div(0, ONE as int, 0, 0);
    lemma_fundamental_div_mod_converse_div((b - a) * ONE, ONE as int, b - a, 0);
    assert((b - a) * 0 == 0) by (nonlinear_arith);
    assert((b - a) * ONE == (b - a) * (ONE as int)) by (nonlinear_arith);
}

/// Law: however large the raw yaw difference (up to a full turn either way),
/// the animation's stored yaw delta is normalized into `(-PI_RAD, PI_RAD]`,
/// so the total yaw travel from start to end is at most half a turn.
pub proof fn lemma_yaw_travel(camera: CameraPose, a: CameraAnimation, yaw_diff: int)
    requires
        -TWO_PI_RAD <= yaw_diff <= TWO_PI_RAD,
        a.start_yaw == camera.yaw,
        a.end_yaw == camera.yaw + spec_wrap_yaw(yaw_diff),
    ensures
        -PI_RAD < a.end_yaw - a.start_yaw <= PI_RAD,
        a.end_yaw - a.start_yaw == yaw_diff || a.end_yaw - a.start_yaw == yaw_diff - TWO_PI_RAD
            || a.end_yaw - a.start_yaw == yaw_diff + TWO_PI_RAD,
{
}

/// The normalized parameter stays within sixteen units either way over the
/// accepted time range.
proof fn lemma_param_in_range(dt: int, duration: int)
    requires
        0 < duration,
        -16 * duration <= dt <= 16 * duration,
    ensures
        -16 * ONE <= (dt * ONE) / duration <= 16 * ONE,
{
    let u = ONE as int;
    assert(dt * u <= duration * (16 * u) && duration * ((-16) * u) <= dt * u)
        by (nonlinear_arith)
        requires
            -16 * duration <= dt <= 16 * duration,
            0 < duration,
            0 < u,
    ;
    lemma_div_is_ordered(dt * ONE, duration * (16 * ONE), duration);
    lemma_div_is_ordered(duration * ((-16) * ONE), dt * ONE, duration);
    lemma_div_multiples_vanish(16 * ONE, duration);
    lemma_div_multiples_vanish((-16) * ONE, duration);
}

/// The easing curve, evaluated exactly on fixed-point parameters.
fn ease(t: i64) -> (r: i64)
    requires
        -16 * ONE <= t <= 16 * ONE,
    ensures
        r == spec_ease(t as int),
        -MAX_WEIGHT <= r <= MAX_WEIGHT,
{
    proof {
        assert(0 <= t as int * t as int <= 0x100_0000_0000 && -0x4000_0000_0000_0000 <= t as int
            * t as int * (3 * (ONE as int) - 2 * t as int) <= 0x4000_0000_0000_0000)
            by (nonlinear_arith)
            requires
                -0x10_0000 <= t as int <= 0x10_0000,
                ONE as int == 0x1_0000,
        ;
    }
    let num_wide: i128 = t as i128 * t as i128 * (3 * (ONE as i128) - 2 * (t as i128));
    let num: i64 = num_wide as i64;
    let r = div_floor(num, ONE * ONE);
    proof {
        lemma_div_is_ordered(num as int, 0x4000_0000_0000_0000, (ONE * ONE) as int);
        lemma_div_is_ordered(-0x4000_0000_0000_0000, num as int, (ONE * ONE) as int);
        lemma_fundamental_div_mod_converse_div(0x4000_0000_0000_0000, 0x1_0000_0000, 0x4000_0000, 0);
        lemma_fundamental_div_mod_converse_div(-0x4000_0000_0000_0000, 0x1_0000_0000, -0x4000_0000, 0);
    }
    r
}

/// Interpolation between two coordinates, the weight applied on a wide
/// intermediate and floored back to units.
fn lerp(a: i64, b: i64, w: i64) -> (r: i64)
    requires
        in_coord_range(a as int),
        in_coord_range(b as int),
        -MAX_WEIGHT <= w <= MAX_WEIGHT,
    ensures
        r == spec_lerp(a as int, b as int, w as int),
{
    let d: i128 = b as i128 - a as i128;
    proof {
        assert(-0x80_0000_0000_0000_0000 <= d as int * w as int <= 0x80_0000_0000_0000_0000)
            by (nonlinear_arith)
            requires
                -0x200_0000_0000 <= d as int <= 0x200_0000_0000,
                -0x4000_0000 <= w as int <= 0x4000_0000,
        ;
    }
    let prod: i128 = d * (w as i128);
    let q: i128 = div_floor_wide(prod, ONE as i128);
    proof {
        lemma_div_is_ordered(prod as int, 0x80_0000_0000_0000_0000, ONE as int);
        lemma_div_is_ordered(-0x80_0000_0000_0000_0000, prod as int, ONE as int);
        lemma_fundamental_div_mod_converse_div(0x80_0000_0000_0000_0000, 0x1_0000, 0x80_0000_0000_0000, 0);
        lemma_fundamental_div_mod_converse_div(-0x80_0000_0000_0000_0000, 0x1_0000, -0x80_0000_0000_0000, 0);
    }
    (a as i128 + q) as i64
}

} // verus!
