//! Narrow-phase geometry against literal fixtures.

use xpbd2d::{ball_ball, ball_box, box_box, Fx, Rot, Vec2, FX_ONE};

fn fx(millionths: i64) -> Fx {
    Fx::from_raw(millionths)
}

fn v(x: i64, y: i64) -> Vec2 {
    Vec2::new(fx(x), fx(y))
}

fn unit_square() -> Vec2 {
    v(FX_ONE, FX_ONE)
}

#[test]
fn box_box_clear() {
    assert!(box_box(
        Vec2::zero(), Rot::identity(), unit_square(),
        v(1_100_000, 0), Rot::identity(), unit_square(),
    ).is_none());
    assert!(box_box(
        Vec2::zero(), Rot::identity(), unit_square(),
        v(-1_100_000, 0), Rot::identity(), unit_square(),
    ).is_none());
    assert!(box_box(
        Vec2::zero(), Rot::identity(), unit_square(),
        v(0, 1_100_000), Rot::identity(), unit_square(),
    ).is_none());
    assert!(box_box(
        Vec2::zero(), Rot::identity(), unit_square(),
        v(0, -1_100_000), Rot::identity(), unit_square(),
    ).is_none());
}

#[test]
fn box_box_intersection() {
    assert!(box_box(
        Vec2::zero(), Rot::identity(), unit_square(),
        Vec2::zero(), Rot::identity(), unit_square(),
    ).is_some());
    assert!(box_box(
        Vec2::zero(), Rot::identity(), unit_square(),
        v(900_000, 900_000), Rot::identity(), unit_square(),
    ).is_some());
    assert!(box_box(
        Vec2::zero(), Rot::identity(), unit_square(),
        v(-900_000, -900_000), Rot::identity(), unit_square(),
    ).is_some());
}

#[test]
fn box_box_contact() {
    let contact = box_box(
        Vec2::zero(), Rot::identity(), unit_square(),
        v(900_000, 0), Rot::identity(), unit_square(),
    ).unwrap();

    assert!(contact.normal.x.raw() > 0);
    assert!(contact.normal.y.raw() < 1_000);
    assert!((contact.penetration.raw() - 100_000).abs() < 1_000);
}

#[test]
fn ball_ball_overlap_exact() {
    // Unit-radius halves, centers half a unit apart: penetration is half a
    // unit and the normal points from the first center to the second.
    let contact = ball_ball(Vec2::zero(), fx(500_000), v(500_000, 0), fx(500_000)).unwrap();
    assert_eq!(contact.penetration.raw(), 500_000);
    assert_eq!(contact.normal.x.raw(), FX_ONE);
    assert_eq!(contact.normal.y.raw(), 0);
}

#[test]
fn ball_ball_touching_is_clear() {
    // Centers exactly one radius sum apart: no strict overlap.
    assert!(ball_ball(Vec2::zero(), fx(500_000), v(1_000_000, 0), fx(500_000)).is_none());
}

#[test]
fn ball_ball_coincident_centers_is_skipped() {
    // Coincident centers admit no normal direction: defined as no contact.
    assert!(ball_ball(Vec2::zero(), fx(500_000), Vec2::zero(), fx(500_000)).is_none());
}

#[test]
fn ball_box_face_contact() {
    // Circle right of a unit box, overlapping its right face: the normal
    // points from the circle toward the box, the penetration is exact.
    let contact = ball_box(v(800_000, 0), fx(500_000), Vec2::zero(), unit_square()).unwrap();
    assert_eq!(contact.normal.x.raw(), -FX_ONE);
    assert_eq!(contact.normal.y.raw(), 0);
    assert_eq!(contact.penetration.raw(), 200_000);
}

#[test]
fn ball_box_corner_contact() {
    // Circle near the top-right corner: circle-versus-point against that
    // corner.
    let contact = ball_box(v(600_000, 600_000), fx(200_000), Vec2::zero(), unit_square())
        .unwrap();
    assert_eq!(contact.penetration.raw(), 200_000 - 141_421);
    assert!((contact.normal.x.raw() + 707_107).abs() <= 3);
    assert!((contact.normal.y.raw() + 707_107).abs() <= 3);
}

#[test]
fn ball_box_clear() {
    // Circle outside the radius on one axis: no contact.
    assert!(ball_box(v(1_200_000, 0), fx(500_000), Vec2::zero(), unit_square()).is_none());
    // Circle beyond the corner by more than the radius: no contact.
    assert!(ball_box(v(800_000, 800_000), fx(200_000), Vec2::zero(), unit_square()).is_none());
}

#[test]
fn box_box_rotated_overlap() {
    // A box rotated an eighth turn reaches farther along the axes: at 1.2
    // units it still touches the unit box at the origin, where an unrotated
    // one would not.
    let eighth = Rot::new(fx(707_107), fx(707_107));
    assert!(box_box(
        Vec2::zero(), Rot::identity(), unit_square(),
        v(1_150_000, 0), eighth, unit_square(),
    ).is_some());
    assert!(box_box(
        Vec2::zero(), Rot::identity(), unit_square(),
        v(1_150_000, 0), Rot::identity(), unit_square(),
    ).is_none());
}
