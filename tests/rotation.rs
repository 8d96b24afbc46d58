use punchball::rotation::{Rotation, ROT_ONE};
use punchball::timer::Timer;
use punchball::vector::Vec2;

#[test]
fn identity_faces_x_axis() {
    let r = Rotation::identity();
    assert_eq!(r, Rotation { w: ROT_ONE, z: 0 });
    assert_eq!(r.direction(90_000), Vec2::new(90_000, 0));
    assert_eq!(r.direction(-6000), Vec2::new(-6000, 0));
}

#[test]
fn stick_up_faces_y_axis() {
    let r = Rotation::toward(Vec2::new(0, 1000));
    assert_eq!(r, Rotation { w: 706_713, z: 706_713 });
    assert_eq!(r.direction(90_000), Vec2::new(0, 90_000));
}

#[test]
fn stick_back_faces_negative_x() {
    let r = Rotation::toward(Vec2::new(-1000, 0));
    assert_eq!(r, Rotation { w: 0, z: ROT_ONE });
    assert_eq!(r.direction(90_000), Vec2::new(-90_000, 0));
}

#[test]
fn full_turn_reaches_target() {
    let target = Rotation { w: 0, z: ROT_ONE };
    assert_eq!(Rotation::identity().turn_toward(&target, 1000), target);
}

#[test]
fn no_turn_stays() {
    let target = Rotation { w: 0, z: ROT_ONE };
    assert_eq!(Rotation::identity().turn_toward(&target, 0), Rotation::identity());
}

#[test]
fn turn_takes_shorter_path() {
    // (-1, 0) is the same rotation as (1, 0): it is flipped before moving.
    let flipped = Rotation { w: -ROT_ONE, z: 0 };
    assert_eq!(flipped.turn_toward(&Rotation::identity(), 0), Rotation::identity());
    // Half way from facing x to facing y lands at 45 degrees.
    let half = Rotation::identity().turn_toward(&Rotation::toward(Vec2::new(0, 1000)), 500);
    let d = half.direction(1000);
    assert!(d.x > 690 && d.x < 720 && d.y > 690 && d.y < 720);
}

#[test]
fn timer_counts_up_to_its_duration() {
    let mut t = Timer::new(500);
    assert!(!t.finished());
    assert_eq!(t.permille(), 0);
    t.tick(125);
    assert_eq!(t.elapsed, 125);
    assert_eq!(t.permille(), 250);
    assert_eq!(t.permille_left(), 750);
    t.tick(1000);
    assert_eq!(t.elapsed, 500);
    assert!(t.finished());
    t.reset();
    assert_eq!(t, Timer { duration: 500, elapsed: 0 });
    assert!(Timer::new_finished(500).finished());
    assert_eq!(Timer::new(0).permille(), 1000);
}
