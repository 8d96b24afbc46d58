use punchball::arena::Arena;
use punchball::lifecycle::{dead_players_system, leave_arena_system, punch_animation_system};
use punchball::player::{Glove, Player, PlayerState};
use punchball::vector::Vec2;

#[test]
fn player_outside_arena_dies_whatever_its_velocity() {
    let arena = Arena::new();
    let mut a = Player::new(0);
    a.position = Vec2::new(384_001, 0);
    a.vel = Vec2::new(-6000, 0);
    let mut b = Player::new(1);
    b.position = Vec2::new(384_000, 0);
    let mut players = vec![a, b];
    let credited = leave_arena_system(&mut players, &arena);
    assert_eq!(players[0].state, PlayerState::Dead);
    assert_eq!(players[1].state, PlayerState::Alive);
    assert!(credited.is_empty());
}

#[test]
fn death_after_a_hit_credits_the_attacker() {
    let arena = Arena::new();
    let mut a = Player::new(0);
    a.position = Vec2::new(0, -400_000);
    a.point_recipient = Some(2);
    let mut b = Player::new(1);
    b.position = Vec2::new(300_000, 300_000);
    b.point_recipient = Some(2);
    let mut c = Player::new(2);
    c.position = Vec2::new(0, 0);
    let mut players = vec![a, b, c];
    let credited = leave_arena_system(&mut players, &arena);
    assert_eq!(credited, vec![2, 2]);
    assert_eq!(players[2].state, PlayerState::Alive);
}

#[test]
fn dead_player_is_not_checked_again() {
    let arena = Arena::new();
    let mut a = Player::new(0);
    a.position = Vec2::new(500_000, 0);
    a.point_recipient = Some(1);
    a.state = PlayerState::Dead;
    let mut players = vec![a];
    assert!(leave_arena_system(&mut players, &arena).is_empty());
}

#[test]
fn dead_player_shrinks_then_respawns_at_start() {
    let mut p = Player::new(2);
    p.position = Vec2::new(500_000, 12);
    p.vel = Vec2::new(7000, -3000);
    p.state = PlayerState::Dead;
    let mut players = vec![p];
    dead_players_system(&mut players, 750);
    assert_eq!(players[0].state, PlayerState::Dead);
    assert_eq!(players[0].scale, 500);
    assert_eq!(players[0].respawn_timer.elapsed, 750);
    dead_players_system(&mut players, 749);
    assert_eq!(players[0].state, PlayerState::Dead);
    assert_eq!(players[0].scale, 1);
    dead_players_system(&mut players, 1);
    let q = players[0];
    assert_eq!(q.state, PlayerState::Alive);
    assert_eq!(q.position, Vec2::new(100_000, -100_000));
    assert_eq!(q.vel, Vec2::new(0, 0));
    assert_eq!(q.scale, 1000);
    assert_eq!(q.respawn_timer.elapsed, 0);
}

#[test]
fn live_player_is_not_respawned() {
    let mut p = Player::new(0);
    p.position = Vec2::new(5, 5);
    let mut players = vec![p];
    dead_players_system(&mut players, 2000);
    assert_eq!(players[0], p);
}

#[test]
fn glove_follows_drawback_timer() {
    let mut p = Player::new(0);
    p.punch_timer.reset();
    let mut players = vec![p];
    let mut gloves = vec![Glove::new(0)];
    assert_eq!(gloves[0].offset, 40_000);
    punch_animation_system(&mut players, &mut gloves, 0);
    assert_eq!(gloves[0].offset, 90_000);
    punch_animation_system(&mut players, &mut gloves, 250);
    assert_eq!(gloves[0].offset, 65_000);
    punch_animation_system(&mut players, &mut gloves, 250);
    assert_eq!(gloves[0].offset, 40_000);
    assert!(players[0].punch_timer.finished());
}
