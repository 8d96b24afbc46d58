use punchball::config::MAX_VELOCITY;
use punchball::movement::{moving_towards, steer_velocity};
use punchball::vector::{ceil_sqrt, isqrt, scale_to_length, Vec2};

fn len_sq(v: Vec2) -> i128 {
    (v.x as i128) * (v.x as i128) + (v.y as i128) * (v.y as i128)
}

#[test]
fn drag_slows_a_coasting_body() {
    assert_eq!(steer_velocity(Vec2::new(1000, 0), Vec2::new(0, 0), 100), Vec2::new(920, 0));
}

#[test]
fn stick_accelerates() {
    assert_eq!(steer_velocity(Vec2::new(0, 0), Vec2::new(1000, 0), 16), Vec2::new(400, 0));
    assert_eq!(steer_velocity(Vec2::new(0, 0), Vec2::new(0, -1000), 16), Vec2::new(0, -400));
}

#[test]
fn stick_in_dead_zone_is_ignored() {
    assert_eq!(steer_velocity(Vec2::new(0, 0), Vec2::new(100, 100), 16), Vec2::new(0, 0));
    assert_eq!(steer_velocity(Vec2::new(0, 0), Vec2::new(200, 0), 16), Vec2::new(0, 0));
}

#[test]
fn normal_speed_is_capped() {
    assert_eq!(steer_velocity(Vec2::new(6000, 0), Vec2::new(1000, 0), 100), Vec2::new(6000, 0));
}

#[test]
fn overspeed_may_not_grow() {
    // 12000 dragged to 11904, pushed to 12154, then held at 12000 less twice the drag.
    assert_eq!(steer_velocity(Vec2::new(12_000, 0), Vec2::new(1000, 0), 10), Vec2::new(11_808, 0));
    assert_eq!(steer_velocity(Vec2::new(12_000, 0), Vec2::new(0, 0), 10), Vec2::new(11_904, 0));
}

#[test]
fn overspeed_decays_then_stays_capped() {
    let mut v = Vec2::new(18_000, 0);
    let mut was_over = true;
    for frame in 0..400 {
        let stick = if frame % 2 == 0 { Vec2::new(1000, 0) } else { Vec2::new(0, 1000) };
        let next = steer_velocity(v, stick, 16);
        if was_over {
            assert!(len_sq(next) <= len_sq(v));
        } else {
            assert!(len_sq(next) <= (MAX_VELOCITY as i128) * (MAX_VELOCITY as i128));
        }
        was_over = len_sq(next) > (MAX_VELOCITY as i128) * (MAX_VELOCITY as i128);
        v = next;
    }
    assert!(!was_over);
}

#[test]
fn approach_test() {
    // Body at (10,0) moving left approaches the origin; moving right it does not.
    assert!(moving_towards(Vec2::new(0, 0), Vec2::new(10_000, 0), Vec2::new(-1, 0)));
    assert!(!moving_towards(Vec2::new(0, 0), Vec2::new(10_000, 0), Vec2::new(1, 0)));
    assert!(!moving_towards(Vec2::new(0, 0), Vec2::new(10_000, 0), Vec2::new(0, 5)));
}

#[test]
fn square_roots() {
    assert_eq!(isqrt(0), 0);
    assert_eq!(isqrt(15), 3);
    assert_eq!(isqrt(16), 4);
    assert_eq!(ceil_sqrt(16), 4);
    assert_eq!(ceil_sqrt(17), 5);
    assert_eq!(isqrt(2_000_000), 1414);
    assert_eq!(ceil_sqrt(2_000_000), 1415);
}

#[test]
fn rescaling() {
    assert_eq!(scale_to_length(Vec2::new(3000, 4000), 1000), Vec2::new(600, 800));
    assert_eq!(scale_to_length(Vec2::new(3000, 4000), -1000), Vec2::new(-600, -800));
    assert_eq!(Vec2::new(3, 4).length_squared(), 25);
    assert_eq!(Vec2::new(3, 4).dot(&Vec2::new(-4, 3)), 0);
}
