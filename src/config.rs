use crate::vector::Vec2;
use vstd::prelude::*;

verus! {

/// Identifier of a player; it indexes the per-player tables.
pub type PlayerID = usize;

/// Number of players the spawn table has places for.
pub const MAX_PLAYERS: usize = 4;

/// Fixed-point scale: one world unit, or full stick deflection, is this many steps.
pub const UNIT: i64 = 1000;

/// Milliseconds in one second.
pub const MS_PER_SECOND: i64 = 1000;

/// Radius of the arena circle.
pub const ARENA_RADIUS: i64 = 384_000;

/// Radius of a player body, used for collision and punch detection.
pub const COLLISION_RADIUS: i64 = 32_000;

/// Stick deflection at or below which a stick counts as neutral.
pub const DEAD_ZONE_THRESHOLD: i64 = 200;

/// Drag, as a fraction of velocity lost per millisecond: `DRAG_NUM / DRAG_DEN`
/// (0.8 per second).
pub const DRAG_NUM: i64 = 4;

pub const DRAG_DEN: i64 = 5000;

/// Speed a player can reach by itself; punches may push past it.
pub const MAX_VELOCITY: i64 = 6000;

/// Acceleration from the stick and the scale from velocity to displacement,
/// per second.
pub const MOVE_SPEED: i64 = 25;

/// How long a hit keeps its attribution for scoring, in milliseconds.
pub const POINT_TOUCH_DURATION: u64 = 5000;

/// Distance from a player's center at which the glove rests.
pub const PUNCH_BASE: i64 = 40_000;

/// How far the glove travels outward in a punch.
pub const PUNCH_LENGTH: i64 = 50_000;

/// How long a glove takes to come back after a punch, in milliseconds.
pub const PUNCH_DRAWBACK_DURATION: u64 = 500;

/// Multiple of the speed cap given to the player that is hit.
pub const PUNCH_PUSHBACK_OTHER: i64 = 3;

/// Multiple of the speed cap given, backwards, to the player that hits.
pub const PUNCH_PUSHBACK_SELF: i64 = 1;

/// How long a dead player shrinks before respawning, in milliseconds.
pub const RESPAWN_DURATION: u64 = 1500;

/// Turning rate toward the right stick, per second.
pub const TURN_SPEED: i64 = 6;

/// Points needed to win a round.
pub const WIN_POINTS: usize = 10;

/// How long the winning message stays before the round restarts, in milliseconds.
pub const WIN_MESSAGE_DURATION: u64 = 3000;

/// Largest position coordinate the simulation accepts at the start of a frame.
pub const POS_LIMIT: i64 = 0x100_0000_0000;

/// Largest velocity component the simulation accepts at the start of a frame.
pub const VEL_LIMIT: i64 = 0x1_0000_0000;

/// Longest frame the integrator accepts, in milliseconds.
pub const MAX_FRAME_MS: u64 = 1000;

/// Largest score the simulation accepts at the start of a frame.
pub const POINTS_LIMIT: usize = 0xFFFF_0000;

pub open spec fn starting_location_spec(id: int) -> (int, int) {
    if id == 0 {
        (-100_000, 100_000)
    } else if id == 1 {
        (100_000, 100_000)
    } else if id == 2 {
        (100_000, -100_000)
    } else {
        (-100_000, -100_000)
    }
}

/// Where a player of the given id spawns and respawns.
pub fn starting_location(id: PlayerID) -> (r: Vec2)
    requires
        id < MAX_PLAYERS,
    ensures
        (r.x as int, r.y as int) == starting_location_spec(id as int),
{
    if id == 0 {
        Vec2 { x: -100_000, y: 100_000 }
    } else if id == 1 {
        Vec2 { x: 100_000, y: 100_000 }
    } else if id == 2 {
        Vec2 { x: 100_000, y: -100_000 }
    } else {
        Vec2 { x: -100_000, y: -100_000 }
    }
}

} // verus!
