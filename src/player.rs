use crate::config::{
    starting_location, starting_location_spec, PlayerID, MAX_PLAYERS, POINT_TOUCH_DURATION,
    POS_LIMIT, PUNCH_DRAWBACK_DURATION, RESPAWN_DURATION, VEL_LIMIT,
};
use crate::rotation::Rotation;
use crate::timer::Timer;
use crate::vector::Vec2;
use vstd::prelude::*;

verus! {

/// Full visual size, in thousandths.
pub const FULL_SCALE: u64 = 1000;

#[derive(Clone, Copy, Debug, PartialEq, Eq, Structural)]
pub enum PlayerState {
    Alive,
    Dead,
}

/// One player's body and bookkeeping.
#[derive(Clone, Copy, Debug, PartialEq, Eq, Structural)]
pub struct Player {
    pub id: PlayerID,
    pub position: Vec2,
    pub facing: Rotation,
    /// Visual size in thousandths; it shrinks while the player is dead.
    pub scale: u64,
    pub vel: Vec2,
    pub respawn_timer: Timer,
    pub punch_timer: Timer,
    /// The player who last hit this one, while that hit still counts.
    pub point_recipient: Option<PlayerID>,
    pub point_timer: Timer,
    pub state: PlayerState,
}

impl Player {
    /// The player's own invariants.
    pub open spec fn wf(self) -> bool {
        &&& self.id < MAX_PLAYERS
        &&& self.facing.wf()
        &&& self.scale <= FULL_SCALE
        &&& self.respawn_timer.wf()
        &&& self.respawn_timer.duration == RESPAWN_DURATION
        &&& self.punch_timer.wf()
        &&& self.punch_timer.duration == PUNCH_DRAWBACK_DURATION
        &&& self.point_timer.wf()
        &&& self.point_timer.duration == POINT_TOUCH_DURATION
        &&& (self.point_recipient matches Some(r) ==> r != self.id)
    }

    /// Position and velocity are in the range a frame accepts.
    pub open spec fn in_limits(self) -> bool {
        self.position.within(POS_LIMIT as int) && self.vel.within(VEL_LIMIT as int)
    }

    pub open spec fn is_alive(self) -> bool {
        self.state == PlayerState::Alive
    }

    pub open spec fn at_start(self) -> bool {
        (self.position.x as int, self.position.y as int) == starting_location_spec(self.id as int)
    }

    /// A player as it joins the game.
    pub open spec fn fresh(id: PlayerID) -> Player {
        Player {
            id,
            position: crate::lifecycle::vec_of_start(id),
            facing: Rotation::identity_spec(),
            scale: FULL_SCALE,
            vel: Vec2 { x: 0, y: 0 },
            respawn_timer: Timer { duration: RESPAWN_DURATION, elapsed: 0 },
            punch_timer: Timer { duration: PUNCH_DRAWBACK_DURATION, elapsed: PUNCH_DRAWBACK_DURATION },
            point_recipient: None,
            point_timer: Timer { duration: POINT_TOUCH_DURATION, elapsed: 0 },
            state: PlayerState::Alive,
        }
    }

    /// A new player at its starting location, at rest and facing along the x
    /// axis, with its glove ready to punch.
    pub fn new(id: PlayerID) -> (r: Player)
        requires
            id < MAX_PLAYERS,
        ensures
            r == Player::fresh(id),
            r.wf(),
            r.id == id,
            r.at_start(),
            r.vel == (Vec2 { x: 0, y: 0 }),
            r.facing == Rotation::identity_spec(),
            r.scale == FULL_SCALE,
            r.respawn_timer == (Timer { duration: RESPAWN_DURATION, elapsed: 0 }),
            r.punch_timer == (Timer {
                duration: PUNCH_DRAWBACK_DURATION,
                elapsed: PUNCH_DRAWBACK_DURATION,
            }),
            r.point_recipient.is_none(),
            r.point_timer == (Timer { duration: POINT_TOUCH_DURATION, elapsed: 0 }),
            r.is_alive(),
    {
        Player {
            id,
            position: starting_location(id),
            facing: Rotation::identity(),
            scale: FULL_SCALE,
            vel: Vec2::zero(),
            respawn_timer: Timer::new(RESPAWN_DURATION),
            punch_timer: Timer::new_finished(PUNCH_DRAWBACK_DURATION),
            point_recipient: None,
            point_timer: Timer::new(POINT_TOUCH_DURATION),
            state: PlayerState::Alive,
        }
    }
}

/// A boxing glove, drawn at an offset from the player it belongs to.
#[derive(Clone, Copy, Debug, PartialEq, Eq, Structural)]
pub struct Glove {
    /// The owning player.
    pub player: PlayerID,
    /// Distance from the owner's center along its facing.
    pub offset: i64,
}

impl Glove {
    /// A glove at rest for the given player.
    pub fn new(player: PlayerID) -> (r: Glove)
        ensures
            r == (Glove { player, offset: crate::config::PUNCH_BASE }),
    {
        Glove { player, offset: crate::config::PUNCH_BASE }
    }
}

} // verus!
