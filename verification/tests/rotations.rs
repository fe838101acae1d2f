//! Rotation algebra on concrete values.

use xpbd2d::{Fx, Rot, Vec2, FX_ONE};

fn fx(millionths: i64) -> Fx {
    Fx::from_raw(millionths)
}

/// A rotation exactly on the fixed-point unit circle, from the 3-4-5
/// triangle.
fn pythagorean() -> Rot {
    Rot::new(fx(600_000), fx(800_000))
}

#[test]
fn rotate_round_trip_within_tolerance() {
    let r = pythagorean();
    let v = Vec2::new(fx(1_000_000), fx(2_000_000));
    let back = r.inv().rotate(r.rotate(v));
    assert!((back.x.raw() - v.x.raw()).abs() <= 5);
    assert!((back.y.raw() - v.y.raw()).abs() <= 5);
}

#[test]
fn rotate_round_trip_axis_vector() {
    let r = pythagorean();
    let v = Vec2::new(fx(5_000_000), fx(0));
    let turned = r.rotate(v);
    assert_eq!(turned.x.raw(), 3_000_000);
    assert_eq!(turned.y.raw(), 4_000_000);
    let back = r.inv().rotate(turned);
    assert!((back.x.raw() - 5_000_000).abs() <= 5);
    assert!(back.y.raw().abs() <= 5);
}

#[test]
fn compose_identity_is_neutral() {
    let r = pythagorean();
    let left = Rot::identity().mul(r);
    let right = r.mul(Rot::identity());
    assert_eq!(left.cos().raw(), r.cos().raw());
    assert_eq!(left.sin().raw(), r.sin().raw());
    assert_eq!(right.cos().raw(), r.cos().raw());
    assert_eq!(right.sin().raw(), r.sin().raw());
}

#[test]
fn compose_inverse_is_identity() {
    let r = pythagorean();
    let composed = r.mul(r.inv());
    assert_eq!(composed.sin().raw(), 0);
    assert!(composed.cos().raw() == FX_ONE || composed.cos().raw() == FX_ONE - 1);
}

#[test]
fn inverse_negates_sine_only() {
    let r = pythagorean();
    let inv = r.inv();
    assert_eq!(inv.cos().raw(), 600_000);
    assert_eq!(inv.sin().raw(), -800_000);
}

#[test]
fn default_rotation_is_identity() {
    let r = Rot::default();
    assert_eq!(r.cos().raw(), FX_ONE);
    assert_eq!(r.sin().raw(), 0);
}

#[test]
fn small_angle_series_at_tenth_radian() {
    // cos(0.1) by the truncated series: 1 - 0.01 / 2 = 0.995;
    // sin(0.1): 0.1 - 0.001 / 6 = 0.099834 (truncated).
    let r = Rot::from_small_angle(fx(100_000));
    assert_eq!(r.cos().raw(), 995_000);
    assert_eq!(r.sin().raw(), 100_000 - 166);
}

#[test]
fn small_angle_round_trip() {
    // Reading the angle back from the sine inverts the series to within a
    // millionth at one tenth of a radian.
    let r = Rot::from_small_angle(fx(100_000));
    let a = r.small_angle();
    assert!((a.raw() - 100_000).abs() <= 1);
}

#[test]
fn rotate_by_identity_is_exact() {
    let v = Vec2::new(fx(123_456), fx(-654_321));
    let turned = Rot::identity().rotate(v);
    assert_eq!(turned.x.raw(), 123_456);
    assert_eq!(turned.y.raw(), -654_321);
}
