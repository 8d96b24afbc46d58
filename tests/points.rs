use punchball::player::Player;
use punchball::points::{
    award_points, cleanup_win_message_system, point_decay_system, win_system, Points,
    WinningMessage,
};
use punchball::timer::Timer;
use punchball::vector::Vec2;

#[test]
fn attribution_lasts_exactly_the_touch_window() {
    let mut p = Player::new(1);
    p.point_recipient = Some(0);
    p.point_timer.reset();
    let mut players = vec![p];
    for _ in 0..4 {
        point_decay_system(&mut players, 1000);
    }
    point_decay_system(&mut players, 999);
    assert_eq!(players[0].point_recipient, Some(0));
    assert_eq!(players[0].point_timer.elapsed, 4999);
    point_decay_system(&mut players, 1);
    assert_eq!(players[0].point_recipient, None);
}

#[test]
fn expired_timer_clears_even_without_time() {
    let mut p = Player::new(1);
    p.point_recipient = Some(0);
    p.point_timer.elapsed = 5000;
    let mut players = vec![p];
    point_decay_system(&mut players, 0);
    assert_eq!(players[0].point_recipient, None);
}

#[test]
fn points_count_every_credit() {
    let mut points = vec![Points::new(0), Points::new(1), Points::new(2)];
    award_points(&mut points, &vec![1, 2, 1]);
    assert_eq!(points[0].value, 0);
    assert_eq!(points[1].value, 2);
    assert_eq!(points[2].value, 1);
}

#[test]
fn first_player_over_the_line_wins() {
    let points = vec![
        Points { player_id: 3, value: 9 },
        Points { player_id: 1, value: 11 },
        Points { player_id: 0, value: 10 },
    ];
    let mut message = None;
    assert_eq!(win_system(&points, &mut message), Some(1));
    assert_eq!(message, Some(WinningMessage { winner: 1, timer: Timer { duration: 3000, elapsed: 0 } }));
    // No second win while the message is shown.
    assert_eq!(win_system(&points, &mut message), None);
    let mut none = None;
    assert_eq!(win_system(&vec![Points { player_id: 0, value: 9 }], &mut none), None);
    assert_eq!(none, None);
}

#[test]
fn round_restarts_when_message_expires() {
    let mut message = Some(WinningMessage { winner: 0, timer: Timer::new(3000) });
    let mut points = vec![Points { player_id: 0, value: 10 }, Points { player_id: 1, value: 4 }];
    let mut p = Player::new(0);
    p.position = Vec2::new(1, 2);
    p.vel = Vec2::new(3, 4);
    let mut players = vec![p];
    assert!(!cleanup_win_message_system(&mut message, &mut points, &mut players, 2999));
    assert_eq!(points[0].value, 10);
    assert_eq!(players[0].position, Vec2::new(1, 2));
    assert!(cleanup_win_message_system(&mut message, &mut points, &mut players, 1));
    assert_eq!(message, None);
    assert_eq!(points[0].value, 0);
    assert_eq!(points[1].value, 0);
    assert_eq!(players[0].position, Vec2::new(-100_000, 100_000));
    assert_eq!(players[0].vel, Vec2::new(0, 0));
    assert!(!cleanup_win_message_system(&mut message, &mut points, &mut players, 10));
}
