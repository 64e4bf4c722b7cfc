use openglrs::camera::{animation_step, wrap_yaw, CameraAnimation, CameraPose, PI_RAD, TWO_PI_RAD};
use openglrs::types::Vec3;
use openglrs::utils::scalar::ONE;

fn pose() -> CameraPose {
    CameraPose { pos: Vec3::new(0, ONE, 0), yaw: PI_RAD / 2, pitch: -PI_RAD / 4 }
}

fn animation() -> CameraAnimation {
    CameraAnimation::new(
        &pose(),
        Vec3::new(4 * ONE, 2 * ONE, -6 * ONE),
        PI_RAD / 2,
        PI_RAD / 4,
        10 * ONE,
        2 * ONE,
    )
}

#[test]
fn animation_starts_at_start_pose() {
    let a = animation();
    let (pos, yaw, pitch) = a.at(a.start_time);
    assert_eq!(pos, a.start_pos);
    assert_eq!(yaw, a.start_yaw);
    assert_eq!(pitch, a.start_pitch);
    assert_eq!(a.start_pos, pose().pos);
    assert_eq!(a.start_yaw, pose().yaw);
    assert_eq!(a.start_pitch, pose().pitch);
}

#[test]
fn animation_lands_on_end_pose() {
    let a = animation();
    assert_eq!(a.end_time(), 12 * ONE);
    let (pos, yaw, pitch) = a.at(a.end_time());
    assert_eq!(pos, a.end_pos);
    assert_eq!(yaw, a.end_yaw);
    assert_eq!(pitch, a.end_pitch);
    assert_eq!(a.end_pos, Vec3::new(4 * ONE, 2 * ONE, -6 * ONE));
    assert_eq!(a.end_yaw, pose().yaw + PI_RAD / 2);
    assert_eq!(a.end_pitch, pose().pitch + PI_RAD / 4);
}

#[test]
fn animation_midpoint_is_halfway() {
    let a = animation();
    // The easing curve passes through one half exactly at the middle.
    let (pos, yaw, pitch) = a.at(a.start_time + a.duration / 2);
    assert_eq!(pos.x, (a.start_pos.x + a.end_pos.x) / 2);
    assert_eq!(pos.y, (a.start_pos.y + a.end_pos.y) / 2);
    assert_eq!(pos.z, (a.start_pos.z + a.end_pos.z) / 2);
    assert_eq!(yaw, (a.start_yaw + a.end_yaw) / 2);
    assert_eq!(pitch, a.start_pitch + (a.end_pitch - a.start_pitch) / 2);
}

#[test]
fn yaw_wrap_keeps_values_in_half_turn() {
    assert_eq!(wrap_yaw(0), 0);
    assert_eq!(wrap_yaw(100), 100);
    assert_eq!(wrap_yaw(PI_RAD), PI_RAD);
    assert_eq!(wrap_yaw(PI_RAD + 1), PI_RAD + 1 - TWO_PI_RAD);
    assert_eq!(wrap_yaw(-PI_RAD), PI_RAD);
    assert_eq!(wrap_yaw(TWO_PI_RAD), 0);
    assert_eq!(wrap_yaw(-TWO_PI_RAD), 0);
    assert_eq!(wrap_yaw(300000), 300000 - TWO_PI_RAD);
    assert_eq!(wrap_yaw(-300000), -300000 + TWO_PI_RAD);
}

#[test]
fn long_way_yaw_is_normalized() {
    // A raw yaw delta over half a turn turns the short way instead.
    let a = CameraAnimation::new(
        &pose(),
        Vec3::new(0, 0, 0),
        PI_RAD + 2000,
        0,
        0,
        ONE,
    );
    let travel = a.end_yaw - a.start_yaw;
    assert_eq!(travel, PI_RAD + 2000 - TWO_PI_RAD);
    assert!(-PI_RAD < travel && travel <= PI_RAD);
}

#[test]
fn step_interpolates_before_the_end() {
    let a = animation();
    let (p, done) = animation_step(&a, a.start_time);
    assert!(!done);
    assert_eq!(p.pos, a.start_pos);
    assert_eq!(p.yaw, a.start_yaw);
    assert_eq!(p.pitch, a.start_pitch);
}

#[test]
fn step_snaps_to_end_pose_when_expired() {
    let a = animation();
    let (p, done) = animation_step(&a, a.end_time() + ONE);
    assert!(done);
    assert_eq!(p.pos, a.end_pos);
    assert_eq!(p.yaw, a.end_yaw);
    assert_eq!(p.pitch, a.end_pitch);
    let (q, done_exact) = animation_step(&a, a.end_time());
    assert!(done_exact);
    assert_eq!(q.pos, a.end_pos);
}
