use crate::arena::Arena;
use crate::collision::Collision;
use crate::config::{PlayerID, MAX_FRAME_MS, MAX_PLAYERS, POINTS_LIMIT, POS_LIMIT, UNIT, VEL_LIMIT};
use crate::event::PlayerSpawnEvent;
use crate::gamepad::{input_for, GamepadInput, GamepadInputs};
use crate::lifecycle::{
    after_leaving, after_respawn_tick, credits, dead_players_system, glove_offset,
    leave_arena_system, punch_animation_system,
};
use crate::physics::{
    advanced, impulse_spec, is_collision_set, moved_as, player_physics_system, punches_spec,
    started, vec_of, with_hits,
};
use crate::player::{Glove, Player};
use crate::points::{
    after_decay, award_points, cleanup_win_message_system, count_of, first_winner,
    point_decay_system, restarted, win_system, Points, WinningMessage,
};
use crate::timer::{ticked, Timer};
use vstd::prelude::*;

verus! {

/// Why a frame was refused.
#[derive(Clone, Copy, Debug, PartialEq, Eq, Structural)]
pub enum FrameError {
    /// The frame is too long, or a position, velocity, score or stick reading
    /// is outside the range the simulation works in.
    OutOfRange,
}

/// What a frame produced for the outside world.
#[derive(Clone, Debug)]
pub struct FrameReport {
    /// The players credited with a knock-out this frame, one entry per death.
    pub credited: Vec<PlayerID>,
    /// The player who won the round this frame.
    pub winner: Option<PlayerID>,
    /// Whether a new round started this frame.
    pub round_reset: bool,
}

/// The whole simulation: players with their gloves and scores, the arena, and
/// the winning message while one is shown.
#[derive(Clone, Debug)]
pub struct Game {
    pub players: Vec<Player>,
    pub gloves: Vec<Glove>,
    pub points: Vec<Points>,
    pub arena: Arena,
    pub winning_message: Option<WinningMessage>,
}

/// Each player's input for the frame, by position; players with no record
/// stand still.
pub open spec fn inputs_of(ps: Seq<Player>, inputs: Seq<(usize, GamepadInput)>) -> Seq<GamepadInput> {
    Seq::new(ps.len(), |i: int| input_for(inputs, ps[i].id))
}

/// The players after a frame of movement with collisions `cs`.
pub open spec fn moved(ps: Seq<Player>, ins: Seq<GamepadInput>, cs: Seq<Collision>, dt: int) -> Seq<Player> {
    let st = started(ps, ins);
    let ks = punches_spec(ps, ins, ps.len() as int);
    Seq::new(
        ps.len(),
        |i: int|
            if ps[i].is_alive() {
                advanced(with_hits(st[i], ks), ins[i], vec_of(impulse_spec(i, st, ks)), cs, dt)
            } else {
                ps[i]
            },
    )
}

/// The players once their drawback timers have run for `dt`.
pub open spec fn animated(ps: Seq<Player>, dt: int) -> Seq<Player> {
    Seq::new(
        ps.len(),
        |i: int|
            Player {
                punch_timer: Timer {
                    duration: ps[i].punch_timer.duration,
                    elapsed: ticked(ps[i].punch_timer, dt),
                },
                ..ps[i]
            },
    )
}

/// The gloves placed from their players' drawback timers.
pub open spec fn placed_gloves(gs: Seq<Glove>, ps: Seq<Player>) -> Seq<Glove> {
    Seq::new(
        gs.len(),
        |i: int| Glove { player: gs[i].player, offset: glove_offset(ps[i].punch_timer) as i64 },
    )
}

pub open spec fn all_left(ps: Seq<Player>, arena: Arena) -> Seq<Player> {
    Seq::new(ps.len(), |i: int| after_leaving(ps[i], arena))
}

pub open spec fn all_respawned(ps: Seq<Player>, dt: int) -> Seq<Player> {
    Seq::new(ps.len(), |i: int| after_respawn_tick(ps[i], dt))
}

pub open spec fn all_decayed(ps: Seq<Player>, dt: int) -> Seq<Player> {
    Seq::new(ps.len(), |i: int| after_decay(ps[i], dt))
}

pub open spec fn all_restarted(ps: Seq<Player>) -> Seq<Player> {
    Seq::new(ps.len(), |i: int| restarted(ps[i]))
}

/// Scores after the credits of a frame.
pub open spec fn scored(pts: Seq<Points>, cr: Seq<PlayerID>) -> Seq<Points> {
    Seq::new(
        pts.len(),
        |i: int|
            Points {
                player_id: pts[i].player_id,
                value: (pts[i].value + count_of(cr, pts[i].player_id)) as usize,
            },
    )
}

pub open spec fn zeroed(pts: Seq<Points>) -> Seq<Points> {
    Seq::new(pts.len(), |i: int| Points { player_id: pts[i].player_id, value: 0 })
}

/// The winning message's countdown runs out within `dt`.
pub open spec fn reset_due(m: Option<WinningMessage>, dt: int) -> bool {
    m matches Some(w) && ticked(w.timer, dt) >= w.timer.duration
}

/// The winning message after its countdown has run for `dt` without running out.
pub open spec fn message_ticked(m: Option<WinningMessage>, dt: int) -> Option<WinningMessage> {
    match m {
        Some(w) => Some(
            WinningMessage {
                winner: w.winner,
                timer: Timer { duration: w.timer.duration, elapsed: ticked(w.timer, dt) },
            },
        ),
        None => None,
    }
}

/// `out` and `rep` are `g` after one frame of `dt` milliseconds with the
/// given inputs, in which the collisions found were `cs`. The stages run in
/// order: movement and fighting, glove animation, arena exits and their
/// points, respawns, attribution decay, the end of a shown win, and a new win.
pub open spec fn frame_result(
    g: Game,
    inputs: Seq<(usize, GamepadInput)>,
    dt: int,
    cs: Seq<Collision>,
    out: Game,
    rep: FrameReport,
) -> bool {
    let p1 = moved(g.players@, inputs_of(g.players@, inputs), cs, dt);
    let p2 = animated(p1, dt);
    let cr = credits(p2, g.arena, p2.len() as int);
    let p3 = all_left(p2, g.arena);
    let pts4 = scored(g.points@, cr);
    let p5 = all_respawned(p3, dt);
    let p6 = all_decayed(p5, dt);
    let due = reset_due(g.winning_message, dt);
    let p7 = if due {
        all_restarted(p6)
    } else {
        p6
    };
    let pts7 = if due {
        zeroed(pts4)
    } else {
        pts4
    };
    let m7 = if due {
        None
    } else {
        message_ticked(g.winning_message, dt)
    };
    let winner = if m7.is_some() {
        None
    } else {
        first_winner(pts7)
    };
    &&& out.players@ == p7
    &&& out.gloves@ == placed_gloves(g.gloves@, p2)
    &&& out.points@ == pts7
    &&& out.arena == g.arena
    &&& out.winning_message == match winner {
        Some(w) => Some(
            WinningMessage { winner: w, timer: Timer { duration: crate::config::WIN_MESSAGE_DURATION, elapsed: 0 } },
        ),
        None => m7,
    }
    &&& rep.credited@ == cr
    &&& rep.winner == winner
    &&& rep.round_reset == due
}

/// Whether some player of `ps` has the id.
pub open spec fn has_id(ps: Seq<Player>, id: PlayerID) -> bool {
    exists|i: int| 0 <= i < ps.len() && (#[trigger] ps[i]).id == id
}

/// The ids that join, in order, when players `ps` are in the game: a valid id
/// joins once while there is room; ids out of range, already playing, or
/// repeated are passed over.
pub open spec fn joins(ps: Seq<Player>, evs: Seq<PlayerSpawnEvent>) -> Seq<PlayerID>
    decreases evs.len(),
{
    if evs.len() == 0 {
        seq![]
    } else {
        let prev = joins(ps, evs.drop_last());
        let id = evs.last().id;
        if id < MAX_PLAYERS && !has_id(ps, id) && !prev.contains(id) && ps.len() + prev.len()
            < MAX_PLAYERS {
            prev.push(id)
        } else {
            prev
        }
    }
}

proof fn lemma_join_tracks(before: Seq<Player>, g0: Seq<Player>, jb: Seq<PlayerID>, id: PlayerID)
    requires
        forall|x: PlayerID| #[trigger] has_id(before, x) == (has_id(g0, x) || jb.contains(x)),
    ensures
        forall|x: PlayerID|
            #[trigger] has_id(before.push(Player::fresh(id)), x) == (has_id(g0, x) || jb.push(
                id,
            ).contains(x)),
{
    let after = before.push(Player::fresh(id));
    let ja = jb.push(id);
    assert forall|x: PlayerID| #[trigger] has_id(after, x) == (has_id(g0, x) || ja.contains(x)) by {
        assert(has_id(before, x) == (has_id(g0, x) || jb.contains(x)));
        if has_id(after, x) {
            let k = choose|k: int| 0 <= k < after.len() && (#[trigger] after[k]).id == x;
            if k < before.len() {
                assert(after[k] == before[k]);
                assert(has_id(before, x));
                if jb.contains(x) {
                    let m = choose|m: int| 0 <= m < jb.len() && jb[m] == x;
                    assert(ja[m] == x);
                }
            } else {
                assert(ja[jb.len() as int] == x);
            }
        }
        if ja.contains(x) {
            let m = choose|m: int| 0 <= m < ja.len() && ja[m] == x;
            if m < jb.len() {
                assert(jb[m] == x);
                assert(jb.contains(x));
            } else {
                assert(after[before.len() as int].id == x);
            }
        }
        if has_id(before, x) {
            let k = choose|k: int| 0 <= k < before.len() && (#[trigger] before[k]).id == x;
            assert(after[k] == before[k]);
        }
    }
}

/// Whether some player has the id.
fn has_player(players: &Vec<Player>, id: PlayerID) -> (r: bool)
    ensures
        r == has_id(players@, id),
{
    let mut j: usize = 0;
    while j < players.len()
        invariant
            0 <= j <= players@.len(),
            forall|k: int| 0 <= k < j ==> (#[trigger] players@[k]).id != id,
        decreases players@.len() - j,
    {
        if players[j].id == id {
            assert(players@[j as int].id == id);
            return true;
        }
        j += 1;
    }
    false
}

/// Whether a position and velocity are in range.
fn player_in_limits(p: &Player) -> (r: bool)
    ensures
        r == p.in_limits(),
{
    -POS_LIMIT <= p.position.x && p.position.x <= POS_LIMIT && -POS_LIMIT <= p.position.y
        && p.position.y <= POS_LIMIT && -VEL_LIMIT <= p.vel.x && p.vel.x <= VEL_LIMIT && -VEL_LIMIT
        <= p.vel.y && p.vel.y <= VEL_LIMIT
}

/// Whether both sticks are within full deflection.
fn input_in_range(input: &GamepadInput) -> (r: bool)
    ensures
        r == input.in_range(),
{
    -UNIT <= input.left_stick.x && input.left_stick.x <= UNIT && -UNIT <= input.left_stick.y
        && input.left_stick.y <= UNIT && -UNIT <= input.right_stick.x && input.right_stick.x <= UNIT
        && -UNIT <= input.right_stick.y && input.right_stick.y <= UNIT
}

impl Game {
    /// The game's invariants: one glove and one score per player, in the same
    /// order, and no id used twice.
    pub open spec fn wf(&self) -> bool {
        &&& self.players@.len() == self.gloves@.len()
        &&& self.players@.len() == self.points@.len()
        &&& self.players@.len() <= MAX_PLAYERS
        &&& forall|i: int| 0 <= i < self.players@.len() ==> (#[trigger] self.players@[i]).wf()
        &&& forall|i: int|
            0 <= i < self.players@.len() ==> (#[trigger] self.gloves@[i]).player
                == self.players@[i].id
        &&& forall|i: int|
            0 <= i < self.players@.len() ==> (#[trigger] self.points@[i]).player_id
                == self.players@[i].id
        &&& forall|i: int, j: int|
            0 <= i < j < self.players@.len() ==> (#[trigger] self.players@[i]).id != (
            #[trigger] self.players@[j]).id
        &&& self.arena.wf()
        &&& (self.winning_message matches Some(m) ==> m.timer.wf())
    }

    /// A frame can run: it is short enough, and every position, velocity,
    /// score and stick reading is in range.
    pub open spec fn frame_ok(&self, inputs: Seq<(usize, GamepadInput)>, dt: int) -> bool {
        &&& dt <= MAX_FRAME_MS
        &&& forall|i: int| 0 <= i < self.players@.len() ==> (#[trigger] self.players@[i]).in_limits()
        &&& forall|i: int|
            0 <= i < self.points@.len() ==> (#[trigger] self.points@[i]).value <= POINTS_LIMIT
        &&& forall|i: int|
            0 <= i < self.players@.len() ==> input_for(inputs, (#[trigger] self.players@[i]).id).in_range()
    }

    /// An empty game in the standard arena.
    pub fn new() -> (r: Game)
        ensures
            r.wf(),
            r.players@.len() == 0,
            r.arena == Arena::new_spec(),
            r.winning_message.is_none(),
    {
        Game {
            players: Vec::new(),
            gloves: Vec::new(),
            points: Vec::new(),
            arena: Arena::new(),
            winning_message: None,
        }
    }
}

impl Game {
    /// Adds a player, with its glove and score, for each spawn request whose id
    /// is in range and not yet playing. Returns the ids that joined.
    pub fn player_join_system(&mut self, events: &Vec<PlayerSpawnEvent>) -> (r: Vec<PlayerID>)
        requires
            old(self).wf(),
        ensures
            final(self).wf(),
            r@ == joins(old(self).players@, events@),
            final(self).players@ == old(self).players@ + Seq::new(
                r@.len(),
                |k: int| Player::fresh(r@[k]),
            ),
            final(self).gloves@ == old(self).gloves@ + Seq::new(
                r@.len(),
                |k: int| Glove { player: r@[k], offset: crate::config::PUNCH_BASE },
            ),
            final(self).points@ == old(self).points@ + Seq::new(
                r@.len(),
                |k: int| Points { player_id: r@[k], value: 0 },
            ),
            final(self).arena == old(self).arena,
            final(self).winning_message == old(self).winning_message,
    {
        let ghost g0 = *self;
        let mut joined: Vec<PlayerID> = Vec::new();
        let mut i: usize = 0;
        while i < events.len()
            invariant
                0 <= i <= events@.len(),
                g0.wf(),
                self.wf(),
                joined@ == joins(g0.players@, events@.take(i as int)),
                self.players@ == g0.players@ + Seq::new(
                    joined@.len(),
                    |k: int| Player::fresh(joined@[k]),
                ),
                self.gloves@ == g0.gloves@ + Seq::new(
                    joined@.len(),
                    |k: int| Glove { player: joined@[k], offset: crate::config::PUNCH_BASE },
                ),
                self.points@ == g0.points@ + Seq::new(
                    joined@.len(),
                    |k: int| Points { player_id: joined@[k], value: 0 },
                ),
                self.arena == g0.arena,
                self.winning_message == g0.winning_message,
                forall|x: PlayerID|
                    #[trigger] has_id(self.players@, x) == (has_id(g0.players@, x)
                        || joined@.contains(x)),
            decreases events@.len() - i,
        {
            let id = events[i].id;
            proof {
                assert(events@.take(i + 1).drop_last() == events@.take(i as int));
                assert(events@.take(i + 1).last() == events@[i as int]);
            }
            let present = has_player(&self.players, id);
            if id < MAX_PLAYERS && !present && self.players.len() < MAX_PLAYERS {
                let ghost before = self.players@;
                let ghost jb = joined@;
                self.players.push(Player::new(id));
                self.gloves.push(Glove::new(id));
                self.points.push(Points::new(id));
                joined.push(id);
                proof {
                    assert(self.players@ =~= g0.players@ + Seq::new(
                        joined@.len(),
                        |k: int| Player::fresh(joined@[k]),
                    ));
                    assert(self.gloves@ =~= g0.gloves@ + Seq::new(
                        joined@.len(),
                        |k: int| Glove { player: joined@[k], offset: crate::config::PUNCH_BASE },
                    ));
                    assert(self.points@ =~= g0.points@ + Seq::new(
                        joined@.len(),
                        |k: int| Points { player_id: joined@[k], value: 0 },
                    ));
                    assert(self.players@ == before.push(Player::fresh(id)));
                    assert(joined@ == jb.push(id));
                    lemma_join_tracks(before, g0.players@, jb, id);
                    assert forall|a: int, b: int|
                        0 <= a < b < self.players@.len() implies (#[trigger] self.players@[a]).id
                        != (#[trigger] self.players@[b]).id by {
                        if b == before.len() {
                            assert(self.players@[a] == before[a]);
                            assert(!has_id(before, id)) by {
                                assert(!(exists|k: int|
                                    0 <= k < before.len() && (#[trigger] before[k]).id == id));
                            }
                        } else {
                            assert(self.players@[a] == before[a] && self.players@[b] == before[b]);
                        }
                    }
                    assert forall|a: int| 0 <= a < self.players@.len() implies (#[trigger] self.players@[a]).wf()
                        && self.gloves@[a].player == self.players@[a].id && self.points@[a].player_id
                        == self.players@[a].id by {
                        if a < before.len() {
                            assert(self.players@[a] == before[a]);
                        }
                    }
                    assert(!has_id(g0.players@, id) && !jb.contains(id));
                }
            } else {
                proof {
                    if id < MAX_PLAYERS && self.players@.len() < MAX_PLAYERS {
                        assert(has_id(self.players@, id));
                    }
                }
            }
            i += 1;
        }
        proof {
            assert(events@.take(events@.len() as int) == events@);
        }
        joined
    }

    /// Each player's input for the frame, or `None` if the frame cannot run.
    fn frame_inputs(&self, inputs: &GamepadInputs, dt: u64) -> (r: Option<Vec<GamepadInput>>)
        requires
            self.wf(),
            inputs.wf(),
        ensures
            r.is_some() == self.frame_ok(inputs.inputs@, dt as int),
            r matches Some(v) ==> v@ == inputs_of(self.players@, inputs.inputs@),
    {
        if dt > MAX_FRAME_MS {
            return None;
        }
        let n = self.players.len();
        let mut ins: Vec<GamepadInput> = Vec::new();
        let mut i: usize = 0;
        while i < n
            invariant
                n == self.players@.len(),
                n == self.points@.len(),
                inputs.wf(),
                0 <= i <= n,
                ins@ == inputs_of(self.players@, inputs.inputs@).take(i as int),
                forall|k: int| 0 <= k < i ==> (#[trigger] self.players@[k]).in_limits(),
                forall|k: int| 0 <= k < i ==> (#[trigger] self.points@[k]).value <= POINTS_LIMIT,
                forall|k: int|
                    0 <= k < i ==> input_for(inputs.inputs@, (#[trigger] self.players@[k]).id).in_range(),
            decreases n - i,
        {
            let p = self.players[i];
            let input = inputs.get(p.id);
            if !player_in_limits(&p) || self.points[i].value > POINTS_LIMIT || !input_in_range(&input) {
                return None;
            }
            ins.push(input);
            proof {
                assert(ins@ =~= inputs_of(self.players@, inputs.inputs@).take(i + 1));
            }
            i += 1;
        }
        proof {
            assert(ins@ =~= inputs_of(self.players@, inputs.inputs@));
        }
        Some(ins)
    }

    /// Runs one frame of `dt` milliseconds with the given controller input.
    /// The frame is refused, and nothing changes, when it is too long or some
    /// position, velocity, score or stick reading is out of range; otherwise
    /// every stage runs in order, as `frame_result` states.
    #[verifier::rlimit(50)]
    pub fn frame(&mut self, inputs: &GamepadInputs, dt: u64) -> (r: Result<FrameReport, FrameError>)
        requires
            old(self).wf(),
            inputs.wf(),
        ensures
            final(self).wf(),
            r.is_err() == !old(self).frame_ok(inputs.inputs@, dt as int),
            r.is_err() ==> *final(self) == *old(self),
            r matches Ok(rep) ==> exists|cs: Seq<Collision>|
                #[trigger] is_collision_set(old(self).players@, cs) && frame_result(
                    *old(self),
                    inputs.inputs@,
                    dt as int,
                    cs,
                    *final(self),
                    rep,
                ),
    {
        let ins = match self.frame_inputs(inputs, dt) {
            Some(ins) => ins,
            None => {
                return Err(FrameError::OutOfRange);
            },
        };
        let ghost g0 = *self;
        player_physics_system(&mut self.players, &ins, dt);
        let ghost cs = choose|cs: Seq<Collision>|
            #[trigger] is_collision_set(g0.players@, cs) && moved_as(
                g0.players@,
                ins@,
                cs,
                dt as int,
                self.players@,
            );
        let ghost p1 = self.players@;
        proof {
            assert(p1 =~= moved(g0.players@, inputs_of(g0.players@, inputs.inputs@), cs, dt as int));
        }
        punch_animation_system(&mut self.players, &mut self.gloves, dt);
        let ghost p2 = self.players@;
        proof {
            assert(p2 =~= animated(p1, dt as int));
            assert(self.gloves@ =~= placed_gloves(g0.gloves@, p2));
        }
        let credited = leave_arena_system(&mut self.players, &self.arena);
        proof {
            assert(self.players@ =~= all_left(p2, g0.arena));
        }
        award_points(&mut self.points, &credited);
        proof {
            assert(self.points@ =~= scored(g0.points@, credited@));
        }
        let ghost p3 = self.players@;
        dead_players_system(&mut self.players, dt);
        proof {
            assert(self.players@ =~= all_respawned(p3, dt as int));
        }
        let ghost p5 = self.players@;
        point_decay_system(&mut self.players, dt);
        proof {
            assert(self.players@ =~= all_decayed(p5, dt as int));
        }
        let ghost p6 = self.players@;
        let ghost pts4 = self.points@;
        let round_reset = cleanup_win_message_system(
            &mut self.winning_message,
            &mut self.points,
            &mut self.players,
            dt,
        );
        proof {
            if round_reset {
                assert(self.players@ =~= all_restarted(p6));
                assert(self.points@ =~= zeroed(pts4));
            }
        }
        let winner = win_system(&self.points, &mut self.winning_message);
        let rep = FrameReport { credited, winner, round_reset };
        proof {
            assert(frame_result(g0, inputs.inputs@, dt as int, cs, *self, rep));
            assert forall|a: int, b: int|
                0 <= a < b < self.players@.len() implies (#[trigger] self.players@[a]).id != (
                #[trigger] self.players@[b]).id by {
                assert(g0.players@[a].id != g0.players@[b].id);
            }
        }
        Ok(rep)
    }
}

} // verus!
