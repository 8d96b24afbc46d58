use crate::arena::Arena;
use crate::config::{starting_location, PlayerID, PUNCH_BASE, PUNCH_LENGTH};
use crate::player::{Glove, Player, PlayerState, FULL_SCALE};
use crate::timer::{ticked, Timer};
use crate::vector::Vec2;
use vstd::prelude::*;

verus! {

/// A live player outside the arena dies.
pub open spec fn falls_out(p: Player, arena: Arena) -> bool {
    p.is_alive() && arena.is_outside(p.position)
}

/// A player after the arena check: a live player outside the arena is dead.
pub open spec fn after_leaving(p: Player, arena: Arena) -> Player {
    if falls_out(p, arena) {
        Player { state: PlayerState::Dead, ..p }
    } else {
        p
    }
}

/// The players credited for the deaths among the first `n` players, in order:
/// each player who falls out while attributed credits its attacker.
pub open spec fn credits(ps: Seq<Player>, arena: Arena, n: int) -> Seq<PlayerID>
    decreases n,
{
    if n <= 0 {
        seq![]
    } else {
        let prev = credits(ps, arena, n - 1);
        let p = ps[n - 1];
        if falls_out(p, arena) && p.point_recipient.is_some() {
            prev.push(p.point_recipient.unwrap())
        } else {
            prev
        }
    }
}

/// Marks dead every live player that is outside the arena, whatever its
/// velocity, and returns, in player order, the attacker credited for each of
/// those deaths; a player who falls without having been hit credits no one.
pub fn leave_arena_system(players: &mut Vec<Player>, arena: &Arena) -> (r: Vec<PlayerID>)
    requires
        arena.wf(),
        forall|i: int|
            0 <= i < old(players)@.len() ==> (#[trigger] old(players)@[i]).position.within(
                0x1000_0000_0000,
            ),
    ensures
        final(players)@.len() == old(players)@.len(),
        forall|i: int|
            0 <= i < old(players)@.len() ==> #[trigger] final(players)@[i] == after_leaving(
                old(players)@[i],
                *arena,
            ),
        r@ == credits(old(players)@, *arena, old(players)@.len() as int),
        r@.len() <= old(players)@.len(),
{
    let ghost ps = players@;
    let n = players.len();
    let mut awarded: Vec<PlayerID> = Vec::new();
    let mut i: usize = 0;
    while i < n
        invariant
            n == ps.len(),
            0 <= i <= n,
            players@.len() == n,
            arena.wf(),
            forall|i: int| 0 <= i < ps.len() ==> (#[trigger] ps[i]).position.within(0x1000_0000_0000),
            forall|k: int| 0 <= k < i ==> #[trigger] players@[k] == after_leaving(ps[k], *arena),
            forall|k: int| i <= k < n ==> #[trigger] players@[k] == ps[k],
            awarded@ == credits(ps, *arena, i as int),
            awarded@.len() <= i,
        decreases n - i,
    {
        let mut p = players[i];
        if p.state == PlayerState::Alive && arena.outside(p.position) {
            if let Some(puncher_id) = p.point_recipient {
                awarded.push(puncher_id);
            }
            p.state = PlayerState::Dead;
            players.set(i, p);
        }
        i += 1;
    }
    awarded
}

/// A dead player after `dt` milliseconds: it shrinks as its respawn timer
/// runs, and once the timer is done it comes back alive, at rest, full size,
/// at its starting location. Live players are unchanged.
pub open spec fn after_respawn_tick(p: Player, dt: int) -> Player {
    if p.is_alive() {
        p
    } else {
        let e = ticked(p.respawn_timer, dt);
        if e >= p.respawn_timer.duration {
            Player {
                respawn_timer: Timer { duration: p.respawn_timer.duration, elapsed: 0 },
                scale: FULL_SCALE,
                vel: Vec2 { x: 0, y: 0 },
                position: vec_of_start(p.id),
                state: PlayerState::Alive,
                ..p
            }
        } else {
            Player {
                respawn_timer: Timer { duration: p.respawn_timer.duration, elapsed: e },
                scale: (FULL_SCALE - e * 1000 / p.respawn_timer.duration as int) as u64,
                ..p
            }
        }
    }
}

/// The starting location of player `id`.
pub open spec fn vec_of_start(id: PlayerID) -> Vec2 {
    let s = crate::config::starting_location_spec(id as int);
    Vec2 { x: s.0 as i64, y: s.1 as i64 }
}

/// Runs the respawn countdown of every dead player.
pub fn dead_players_system(players: &mut Vec<Player>, dt: u64)
    requires
        forall|i: int| 0 <= i < old(players)@.len() ==> (#[trigger] old(players)@[i]).wf(),
    ensures
        final(players)@.len() == old(players)@.len(),
        forall|i: int|
            0 <= i < old(players)@.len() ==> #[trigger] final(players)@[i] == after_respawn_tick(
                old(players)@[i],
                dt as int,
            ),
        forall|i: int| 0 <= i < final(players)@.len() ==> (#[trigger] final(players)@[i]).wf(),
{
    let ghost ps = players@;
    let n = players.len();
    let mut i: usize = 0;
    while i < n
        invariant
            n == ps.len(),
            0 <= i <= n,
            players@.len() == n,
            forall|i: int| 0 <= i < ps.len() ==> (#[trigger] ps[i]).wf(),
            forall|k: int|
                0 <= k < i ==> #[trigger] players@[k] == after_respawn_tick(ps[k], dt as int),
            forall|k: int| 0 <= k < i ==> (#[trigger] players@[k]).wf(),
            forall|k: int| i <= k < n ==> #[trigger] players@[k] == ps[k],
        decreases n - i,
    {
        let mut p = players[i];
        if p.state == PlayerState::Dead {
            p.respawn_timer.tick(dt);
            p.scale = FULL_SCALE - p.respawn_timer.permille();
            if p.respawn_timer.finished() {
                p.scale = FULL_SCALE;
                p.respawn_timer.reset();
                p.vel = Vec2::zero();
                p.position = starting_location(p.id);
                p.state = PlayerState::Alive;
            }
            players.set(i, p);
        }
        i += 1;
    }
}

/// The glove's distance from its owner: fully out right after a punch, and
/// back at rest once the drawback timer has run out.
pub open spec fn glove_offset(t: Timer) -> int {
    PUNCH_BASE + PUNCH_LENGTH * (if t.duration == 0 {
        0
    } else {
        1000 - t.elapsed * 1000 / t.duration as int
    }) / 1000
}

/// Advances every player's drawback timer, and places each glove from the
/// timer of the player it belongs to.
pub fn punch_animation_system(players: &mut Vec<Player>, gloves: &mut Vec<Glove>, dt: u64)
    requires
        old(players)@.len() == old(gloves)@.len(),
        forall|i: int| 0 <= i < old(players)@.len() ==> (#[trigger] old(players)@[i]).wf(),
        forall|i: int|
            0 <= i < old(gloves)@.len() ==> (#[trigger] old(gloves)@[i]).player == old(
                players,
            )@[i].id,
    ensures
        final(players)@.len() == old(players)@.len(),
        final(gloves)@.len() == old(gloves)@.len(),
        forall|i: int|
            0 <= i < old(players)@.len() ==> #[trigger] final(players)@[i] == (Player {
                punch_timer: Timer {
                    duration: old(players)@[i].punch_timer.duration,
                    elapsed: ticked(old(players)@[i].punch_timer, dt as int),
                },
                ..old(players)@[i]
            }),
        forall|i: int|
            0 <= i < old(gloves)@.len() ==> #[trigger] final(gloves)@[i] == (Glove {
                player: old(gloves)@[i].player,
                offset: glove_offset(final(players)@[i].punch_timer) as i64,
            }),
        forall|i: int| 0 <= i < final(players)@.len() ==> (#[trigger] final(players)@[i]).wf(),
{
    let ghost ps = players@;
    let ghost gs = gloves@;
    let n = players.len();
    let mut i: usize = 0;
    while i < n
        invariant
            n == ps.len(),
            n == gs.len(),
            0 <= i <= n,
            players@.len() == n,
            gloves@.len() == n,
            forall|i: int| 0 <= i < ps.len() ==> (#[trigger] ps[i]).wf(),
            forall|i: int| 0 <= i < gs.len() ==> (#[trigger] gs[i]).player == ps[i].id,
            forall|k: int|
                0 <= k < i ==> #[trigger] players@[k] == (Player {
                    punch_timer: Timer {
                        duration: ps[k].punch_timer.duration,
                        elapsed: ticked(ps[k].punch_timer, dt as int),
                    },
                    ..ps[k]
                }),
            forall|k: int|
                0 <= k < i ==> #[trigger] gloves@[k] == (Glove {
                    player: gs[k].player,
                    offset: glove_offset(players@[k].punch_timer) as i64,
                }),
            forall|k: int| 0 <= k < i ==> (#[trigger] players@[k]).wf(),
            forall|k: int| i <= k < n ==> #[trigger] players@[k] == ps[k],
            forall|k: int| i <= k < n ==> #[trigger] gloves@[k] == gs[k],
        decreases n - i,
    {
        let mut p = players[i];
        p.punch_timer.tick(dt);
        let left = p.punch_timer.permille_left() as i64;
        let offset = PUNCH_BASE + PUNCH_LENGTH * left / 1000;
        assert(offset == glove_offset(p.punch_timer));
        let g = Glove { player: gloves[i].player, offset };
        players.set(i, p);
        gloves.set(i, g);
        i += 1;
    }
}

} // verus!
