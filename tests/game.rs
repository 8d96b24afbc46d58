use punchball::event::PlayerSpawnEvent;
use punchball::game::{FrameError, Game};
use punchball::gamepad::{GamepadInput, GamepadInputs};
use punchball::player::PlayerState;
use punchball::vector::Vec2;

fn two_player_game() -> Game {
    let mut game = Game::new();
    let joined = game.player_join_system(&vec![PlayerSpawnEvent { id: 0 }, PlayerSpawnEvent { id: 1 }]);
    assert_eq!(joined, vec![0, 1]);
    game
}

fn input(left: (i64, i64), right: (i64, i64), attack: bool) -> GamepadInput {
    GamepadInput {
        left_stick: Vec2::new(left.0, left.1),
        right_stick: Vec2::new(right.0, right.1),
        right_trigger2: attack,
    }
}

#[test]
fn players_join_once_with_valid_ids() {
    let mut game = Game::new();
    let events = vec![
        PlayerSpawnEvent { id: 2 },
        PlayerSpawnEvent { id: 2 },
        PlayerSpawnEvent { id: 7 },
        PlayerSpawnEvent { id: 0 },
    ];
    assert_eq!(game.player_join_system(&events), vec![2, 0]);
    assert_eq!(game.players.len(), 2);
    assert_eq!(game.players[0].position, Vec2::new(100_000, -100_000));
    assert_eq!(game.points[1].player_id, 0);
    assert_eq!(game.gloves[1].player, 0);
    assert_eq!(game.player_join_system(&vec![PlayerSpawnEvent { id: 0 }]), Vec::<usize>::new());
}

#[test]
fn punch_out_of_the_arena_scores_one_point() {
    let mut game = two_player_game();
    game.players[0].position = Vec2::new(290_000, 0);
    game.players[1].position = Vec2::new(380_000, 0);
    // The defender's last attribution ran out long ago.
    game.players[1].point_timer.elapsed = 5000;
    let mut inputs = GamepadInputs::new();
    inputs.set(0, input((0, 0), (0, 0), true));
    let report = game.frame(&inputs, 16).unwrap();
    assert_eq!(report.credited, vec![0]);
    assert_eq!(game.players[1].state, PlayerState::Dead);
    assert_eq!(game.players[1].point_recipient, Some(0));
    assert_eq!(game.points[0].value, 1);
    assert_eq!(game.points[1].value, 0);
    // The attacker recoils and its glove is out.
    assert!(game.players[0].vel.x < 0);
    assert_eq!(game.players[0].punch_timer.elapsed, 16);
    assert!(game.gloves[0].offset > 80_000);
    assert_eq!(report.winner, None);
}

#[test]
fn punch_marks_and_pushes_the_defender() {
    let mut game = two_player_game();
    game.players[0].position = Vec2::new(0, 0);
    game.players[1].position = Vec2::new(100_000, 0);
    let mut inputs = GamepadInputs::new();
    inputs.set(0, input((0, 0), (0, 0), true));
    game.frame(&inputs, 16).unwrap();
    assert_eq!(game.players[1].point_recipient, Some(0));
    assert_eq!(game.players[1].point_timer.elapsed, 16);
    assert_eq!(game.players[1].vel, Vec2::new(18_000, 0));
    assert_eq!(game.players[1].position, Vec2::new(107_200, 0));
    assert_eq!(game.players[0].vel, Vec2::new(-6000, 0));
    // The glove is still drawing back: holding the trigger does not punch again.
    game.frame(&inputs, 16).unwrap();
    assert_eq!(game.players[1].point_timer.elapsed, 32);
}

#[test]
fn reaching_win_points_shows_message_then_resets() {
    let mut game = two_player_game();
    game.points[1].value = 10;
    game.players[0].position = Vec2::new(5000, 5000);
    let inputs = GamepadInputs::new();
    let report = game.frame(&inputs, 16).unwrap();
    assert_eq!(report.winner, Some(1));
    assert!(game.winning_message.is_some());
    let r1 = game.frame(&inputs, 1000).unwrap();
    assert!(!r1.round_reset && r1.winner.is_none());
    let r2 = game.frame(&inputs, 1000).unwrap();
    assert!(!r2.round_reset);
    assert_eq!(game.points[1].value, 10);
    let r3 = game.frame(&inputs, 1000).unwrap();
    assert!(r3.round_reset);
    assert_eq!(r3.winner, None);
    assert!(game.winning_message.is_none());
    assert_eq!(game.points[0].value, 0);
    assert_eq!(game.points[1].value, 0);
    assert_eq!(game.players[0].position, Vec2::new(-100_000, 100_000));
    assert_eq!(game.players[1].position, Vec2::new(100_000, 100_000));
}

#[test]
fn head_on_players_bounce_apart() {
    let mut game = two_player_game();
    game.players[0].position = Vec2::new(0, 0);
    game.players[1].position = Vec2::new(10_000, 0);
    game.players[0].vel = Vec2::new(1000, 0);
    game.players[1].vel = Vec2::new(-1000, 0);
    game.frame(&GamepadInputs::new(), 0).unwrap();
    assert_eq!(game.players[0].vel, Vec2::new(-1000, 0));
    assert_eq!(game.players[1].vel, Vec2::new(1000, 0));
}

#[test]
fn overlapping_players_that_separate_are_nudged() {
    let mut game = two_player_game();
    game.players[0].position = Vec2::new(0, 0);
    game.players[1].position = Vec2::new(10_000, 0);
    game.players[0].vel = Vec2::new(-1000, 0);
    game.players[1].vel = Vec2::new(1000, 0);
    game.frame(&GamepadInputs::new(), 40).unwrap();
    // Drag to 968, then grown by 1 + 25 * 0.04.
    assert_eq!(game.players[0].vel, Vec2::new(-1936, 0));
    assert_eq!(game.players[1].vel, Vec2::new(1936, 0));
}

#[test]
fn bad_frames_are_refused_and_change_nothing() {
    let mut game = two_player_game();
    let before = game.players.clone();
    assert_eq!(game.frame(&GamepadInputs::new(), 1001).err(), Some(FrameError::OutOfRange));
    let mut inputs = GamepadInputs::new();
    inputs.set(1, input((1001, 0), (0, 0), false));
    assert_eq!(game.frame(&inputs, 16).err(), Some(FrameError::OutOfRange));
    game.players[0].position = Vec2::new(0x100_0000_0001, 0);
    assert_eq!(game.frame(&GamepadInputs::new(), 16).err(), Some(FrameError::OutOfRange));
    assert_eq!(game.players[1], before[1]);
}

#[test]
fn missing_input_means_standing_still() {
    let mut game = two_player_game();
    let start = game.players[0].position;
    game.frame(&GamepadInputs::new(), 16).unwrap();
    assert_eq!(game.players[0].position, start);
    assert_eq!(game.players[0].state, PlayerState::Alive);
}

#[test]
fn right_stick_turns_the_player() {
    let mut game = two_player_game();
    let mut inputs = GamepadInputs::new();
    inputs.set(0, input((0, 0), (0, 1000), false));
    game.frame(&inputs, 1000).unwrap();
    assert_eq!(game.players[0].facing.direction(1000), Vec2::new(0, 1000));
}
