use crate::collision::{
    has_pair, inserted, insert_collision, lemma_inserted_distinct, pairs_distinct,
    post_velocity, same_pair, Collision,
};
use crate::config::{
    PlayerID, COLLISION_RADIUS, MAX_FRAME_MS, MAX_PLAYERS, MAX_VELOCITY, MOVE_SPEED,
    MS_PER_SECOND, POS_LIMIT, PUNCH_BASE, PUNCH_LENGTH, PUNCH_PUSHBACK_OTHER,
    PUNCH_PUSHBACK_SELF, TURN_SPEED,
};
use crate::gamepad::GamepadInput;
use crate::movement::{moving_towards, outside_dead_zone, scaled_pair, steer_velocity, steered};
use crate::player::Player;
use crate::rotation::{direction_pair, target_pair, turned_pair, Rotation};
use crate::timer::Timer;
use crate::vector::{div_trunc, lemma_tdiv_bound, scale_to_length, tdiv, Vec2};
use vstd::prelude::*;

verus! {

/// The vector with the given integer components.
pub open spec fn vec_of(p: (int, int)) -> Vec2 {
    Vec2 { x: p.0 as i64, y: p.1 as i64 }
}

/// Two bodies overlap when their centers are closer than two radii.
pub open spec fn touching(a: Vec2, b: Vec2) -> bool {
    (a.x - b.x) * (a.x - b.x) + (a.y - b.y) * (a.y - b.y) < (2 * COLLISION_RADIUS) * (2
        * COLLISION_RADIUS)
}

/// The collision record for `p` running into `q`.
pub open spec fn collision_between(p: Player, q: Player) -> Collision {
    Collision {
        player_id1: p.id,
        player_id2: q.id,
        pos1: p.position,
        pos2: q.position,
        vel1: p.vel,
        vel2: q.vel,
    }
}

/// Whether two bodies overlap.
fn touching_exec(a: Vec2, b: Vec2) -> (r: bool)
    requires
        a.within(0x200_0000_0000),
        b.within(0x200_0000_0000),
    ensures
        r == touching(a, b),
{
    let d = Vec2 { x: a.x - b.x, y: a.y - b.y };
    let reach = (2 * COLLISION_RADIUS) as i128;
    d.length_squared() < reach * reach
}

proof fn lemma_inserted_grows(s: Seq<Collision>, c: Collision)
    ensures
        forall|x: Collision| has_pair(s, x) ==> has_pair(inserted(s, c), x),
        has_pair(inserted(s, c), c),
        forall|k: int|
            0 <= k < inserted(s, c).len() ==> (k < s.len() && inserted(s, c)[k] == s[k]) || inserted(
                s,
                c,
            )[k] == c,
{
    assert forall|x: Collision| has_pair(s, x) implies has_pair(inserted(s, c), x) by {
        let i = choose|i: int| 0 <= i < s.len() && same_pair(#[trigger] s[i], x);
        assert(inserted(s, c)[i] == s[i]);
    }
    if !has_pair(s, c) {
        assert(same_pair(inserted(s, c)[s.len() as int], c));
    }
}

/// `cs` holds every pair of distinct live players of `ps` whose bodies
/// overlap, each pair once, with both bodies as they are in `ps`, and nothing
/// else.
pub open spec fn is_collision_set(ps: Seq<Player>, cs: Seq<Collision>) -> bool {
    &&& pairs_distinct(cs)
    &&& forall|k: int|
        0 <= k < cs.len() ==> (#[trigger] cs[k]).wf() && exists|i: int, j: int|
            0 <= i < ps.len() && 0 <= j < ps.len() && ps[i].id != ps[j].id && ps[i].is_alive()
                && ps[j].is_alive() && touching(ps[i].position, ps[j].position) && cs[k]
                == #[trigger] collision_between(ps[i], ps[j])
    &&& forall|i: int, j: int|
        0 <= i < ps.len() && 0 <= j < ps.len() && ps[i].id != ps[j].id && ps[i].is_alive()
            && ps[j].is_alive() && touching(ps[i].position, ps[j].position) ==> has_pair(
            cs,
            #[trigger] collision_between(ps[i], ps[j]),
        )
}

/// Every pair of distinct live players whose bodies overlap, each pair once,
/// with both bodies as they are now.
pub fn detect_collisions(players: &Vec<Player>) -> (r: Vec<Collision>)
    requires
        forall|i: int| 0 <= i < players@.len() ==> (#[trigger] players@[i]).in_limits(),
    ensures
        is_collision_set(players@, r@),
{
    let n = players.len();
    let mut set: Vec<Collision> = Vec::new();
    let mut i: usize = 0;
    while i < n
        invariant
            n == players@.len(),
            0 <= i <= n,
            forall|i: int| 0 <= i < players@.len() ==> (#[trigger] players@[i]).in_limits(),
            pairs_distinct(set@),
            forall|k: int|
                0 <= k < set@.len() ==> (#[trigger] set@[k]).wf() && exists|i: int, j: int|
                    0 <= i < players@.len() && 0 <= j < players@.len() && players@[i].id
                        != players@[j].id && players@[i].is_alive() && players@[j].is_alive()
                        && touching(players@[i].position, players@[j].position) && set@[k]
                        == #[trigger] collision_between(players@[i], players@[j]),
            forall|a: int, b: int|
                0 <= a < i && 0 <= b < players@.len() && players@[a].id != players@[b].id
                    && players@[a].is_alive() && players@[b].is_alive() && touching(
                    players@[a].position,
                    players@[b].position,
                ) ==> has_pair(set@, #[trigger] collision_between(players@[a], players@[b])),
        decreases n - i,
    {
        let mut j: usize = 0;
        while j < n
            invariant
                n == players@.len(),
                0 <= i < n,
                0 <= j <= n,
                forall|i: int| 0 <= i < players@.len() ==> (#[trigger] players@[i]).in_limits(),
                pairs_distinct(set@),
                forall|k: int|
                    0 <= k < set@.len() ==> (#[trigger] set@[k]).wf() && exists|i: int, j: int|
                        0 <= i < players@.len() && 0 <= j < players@.len() && players@[i].id
                            != players@[j].id && players@[i].is_alive() && players@[j].is_alive()
                            && touching(players@[i].position, players@[j].position) && set@[k]
                            == #[trigger] collision_between(players@[i], players@[j]),
                forall|a: int, b: int|
                    ((0 <= a < i && 0 <= b < players@.len()) || (a == i && 0 <= b < j))
                        && players@[a].id != players@[b].id && players@[a].is_alive()
                        && players@[b].is_alive() && touching(
                        players@[a].position,
                        players@[b].position,
                    ) ==> has_pair(set@, #[trigger] collision_between(players@[a], players@[b])),
            decreases n - j,
        {
            let p = players[i];
            let q = players[j];
            if p.id != q.id && p.state == crate::player::PlayerState::Alive && q.state
                == crate::player::PlayerState::Alive && touching_exec(p.position, q.position) {
                let c = Collision {
                    player_id1: p.id,
                    player_id2: q.id,
                    pos1: p.position,
                    pos2: q.position,
                    vel1: p.vel,
                    vel2: q.vel,
                };
                let ghost before = set@;
                proof {
                    lemma_inserted_distinct(before, c);
                    lemma_inserted_grows(before, c);
                    assert(c == collision_between(players@[i as int], players@[j as int]));
                }
                insert_collision(&mut set, c);
                proof {
                    assert forall|k: int| 0 <= k < set@.len() implies (#[trigger] set@[k]).wf()
                        && exists|i: int, j: int|
                        0 <= i < players@.len() && 0 <= j < players@.len() && players@[i].id
                            != players@[j].id && players@[i].is_alive() && players@[j].is_alive()
                            && touching(players@[i].position, players@[j].position) && set@[k]
                            == #[trigger] collision_between(players@[i], players@[j]) by {
                        if k < before.len() && set@[k] == before[k] {
                        } else {
                            assert(set@[k] == c);
                            assert(set@[k] == collision_between(
                                players@[i as int],
                                players@[j as int],
                            ));
                        }
                    }
                }
            }
            j += 1;
        }
        i += 1;
    }
    set
}

/// A punch thrown this frame: who threw it, their facing, and where its tip
/// lands.
#[derive(Clone, Copy, Debug, PartialEq, Eq, Structural)]
pub struct Punch {
    pub puncher_id: PlayerID,
    /// Index of the puncher among the players.
    pub puncher: usize,
    pub facing: Rotation,
    pub tip: Vec2,
}

/// Reach of a punch from the puncher's center.
pub open spec fn punch_reach() -> int {
    PUNCH_BASE + PUNCH_LENGTH
}

/// A live player punches when the trigger is held and the glove is back.
pub open spec fn wants_punch(p: Player, input: GamepadInput) -> bool {
    p.is_alive() && input.right_trigger2 && p.punch_timer.is_finished()
}

/// The punch thrown by `p`, the player at index `idx`.
pub open spec fn punch_of(p: Player, idx: int) -> Punch {
    let d = direction_pair(p.facing.pair(), punch_reach());
    Punch {
        puncher_id: p.id,
        puncher: idx as usize,
        facing: p.facing,
        tip: vec_of((p.position.x + d.0, p.position.y + d.1)),
    }
}

/// The punches thrown by the first `n` players, in order.
pub open spec fn punches_spec(ps: Seq<Player>, ins: Seq<GamepadInput>, n: int) -> Seq<Punch>
    decreases n,
{
    if n <= 0 {
        seq![]
    } else {
        let prev = punches_spec(ps, ins, n - 1);
        if wants_punch(ps[n - 1], ins[n - 1]) {
            prev.push(punch_of(ps[n - 1], n - 1))
        } else {
            prev
        }
    }
}

/// `p` with its glove drawn back for a new punch.
pub open spec fn with_punch_started(p: Player) -> Player {
    Player { punch_timer: Timer { duration: p.punch_timer.duration, elapsed: 0 }, ..p }
}

proof fn lemma_punches_len(ps: Seq<Player>, ins: Seq<GamepadInput>, n: int)
    requires
        0 <= n <= usize::MAX,
    ensures
        punches_spec(ps, ins, n).len() <= n,
        forall|k: int|
            0 <= k < punches_spec(ps, ins, n).len() ==> 0 <= (#[trigger] punches_spec(
                ps,
                ins,
                n,
            )[k]).puncher < n && punches_spec(ps, ins, n)[k] == punch_of(
                ps[punches_spec(ps, ins, n)[k].puncher as int],
                punches_spec(ps, ins, n)[k].puncher as int,
            ),
    decreases n,
{
    if n > 0 {
        lemma_punches_len(ps, ins, n - 1);
    }
}

/// Starts the punch of every live player who holds the trigger while the
/// glove is back, and returns those punches in player order.
pub fn start_punches(players: &mut Vec<Player>, inputs: &Vec<GamepadInput>) -> (r: Vec<Punch>)
    requires
        old(players)@.len() == inputs@.len(),
        old(players)@.len() <= MAX_PLAYERS,
        forall|i: int|
            0 <= i < old(players)@.len() ==> (#[trigger] old(players)@[i]).wf() && old(
                players,
            )@[i].in_limits(),
    ensures
        final(players)@.len() == old(players)@.len(),
        forall|i: int|
            0 <= i < old(players)@.len() ==> #[trigger] final(players)@[i] == if wants_punch(
                old(players)@[i],
                inputs@[i],
            ) {
                with_punch_started(old(players)@[i])
            } else {
                old(players)@[i]
            },
        r@ == punches_spec(old(players)@, inputs@, old(players)@.len() as int),
        forall|k: int|
            0 <= k < r@.len() ==> (#[trigger] r@[k]).facing.wf() && r@[k].tip.within(
                0x200_0000_0000,
            ),
{
    let ghost ps = players@;
    let n = players.len();
    let mut out: Vec<Punch> = Vec::new();
    let mut i: usize = 0;
    while i < n
        invariant
            n == ps.len(),
            n == inputs@.len(),
            n <= MAX_PLAYERS,
            0 <= i <= n,
            players@.len() == n,
            forall|i: int| 0 <= i < ps.len() ==> (#[trigger] ps[i]).wf() && ps[i].in_limits(),
            forall|k: int|
                0 <= k < i ==> #[trigger] players@[k] == if wants_punch(ps[k], inputs@[k]) {
                    with_punch_started(ps[k])
                } else {
                    ps[k]
                },
            forall|k: int| i <= k < n ==> #[trigger] players@[k] == ps[k],
            out@ == punches_spec(ps, inputs@, i as int),
            forall|k: int|
                0 <= k < out@.len() ==> (#[trigger] out@[k]).facing.wf() && out@[k].tip.within(
                    0x200_0000_0000,
                ),
        decreases n - i,
    {
        let mut p = players[i];
        let input = inputs[i];
        if p.state == crate::player::PlayerState::Alive && input.right_trigger2
            && p.punch_timer.finished() {
            p.punch_timer.reset();
            let d = p.facing.direction(PUNCH_BASE + PUNCH_LENGTH);
            let tip = Vec2 { x: p.position.x + d.x, y: p.position.y + d.y };
            out.push(Punch { puncher_id: p.id, puncher: i, facing: p.facing, tip });
            players.set(i, p);
        }
        i += 1;
    }
    out
}

/// `k` lands on `p`: `p` is alive, did not throw it, and its body covers the tip.
pub open spec fn hits(p: Player, k: Punch) -> bool {
    p.is_alive() && k.puncher_id != p.id && touching(p.position, k.tip)
}

/// The thrower of the last of `ks` that lands on `p`.
pub open spec fn last_hitter(p: Player, ks: Seq<Punch>) -> Option<PlayerID>
    decreases ks.len(),
{
    if ks.len() == 0 {
        None
    } else if hits(p, ks.last()) {
        Some(ks.last().puncher_id)
    } else {
        last_hitter(p, ks.drop_last())
    }
}

/// `p` after the punches `ks`: the last one to land on it takes the credit for
/// knocking it out, and restarts its attribution window.
pub open spec fn with_hits(p: Player, ks: Seq<Punch>) -> Player {
    match last_hitter(p, ks) {
        Some(h) => Player {
            point_recipient: Some(h),
            point_timer: Timer { duration: p.point_timer.duration, elapsed: 0 },
            ..p
        },
        None => p,
    }
}

/// Push on the player who is hit.
pub open spec fn knock(k: Punch) -> (int, int) {
    direction_pair(k.facing.pair(), PUNCH_PUSHBACK_OTHER * MAX_VELOCITY)
}

/// Recoil on the player who hits.
pub open spec fn recoil(k: Punch) -> (int, int) {
    direction_pair(k.facing.pair(), -PUNCH_PUSHBACK_SELF * MAX_VELOCITY)
}

/// Sum of the pushes on `p` from the punches `ks` that land on it.
pub open spec fn knock_sum(p: Player, ks: Seq<Punch>) -> (int, int)
    decreases ks.len(),
{
    if ks.len() == 0 {
        (0, 0)
    } else {
        let prev = knock_sum(p, ks.drop_last());
        if hits(p, ks.last()) {
            (prev.0 + knock(ks.last()).0, prev.1 + knock(ks.last()).1)
        } else {
            prev
        }
    }
}

/// How many of the first `n` players `k` lands on.
pub open spec fn hit_count(ps: Seq<Player>, k: Punch, n: int) -> int
    decreases n,
{
    if n <= 0 {
        0
    } else {
        hit_count(ps, k, n - 1) + if hits(ps[n - 1], k) {
            1int
        } else {
            0
        }
    }
}

/// Sum of the recoils on the player at index `idx` from its punches among `ks`,
/// one for each player a punch lands on.
pub open spec fn recoil_sum(idx: int, ps: Seq<Player>, ks: Seq<Punch>) -> (int, int)
    decreases ks.len(),
{
    if ks.len() == 0 {
        (0, 0)
    } else {
        let prev = recoil_sum(idx, ps, ks.drop_last());
        let k = ks.last();
        if k.puncher == idx {
            let m = hit_count(ps, k, ps.len() as int);
            (prev.0 + m * recoil(k).0, prev.1 + m * recoil(k).1)
        } else {
            prev
        }
    }
}

/// The total velocity change the punches `ks` give the player at index `idx`.
pub open spec fn impulse_spec(idx: int, ps: Seq<Player>, ks: Seq<Punch>) -> (int, int) {
    let a = knock_sum(ps[idx], ks);
    let b = recoil_sum(idx, ps, ks);
    (a.0 + b.0, a.1 + b.1)
}

proof fn lemma_last_hitter_other(p: Player, ks: Seq<Punch>)
    ensures
        last_hitter(p, ks) matches Some(h) ==> h != p.id,
    decreases ks.len(),
{
    if ks.len() > 0 {
        lemma_last_hitter_other(p, ks.drop_last());
    }
}

/// Credits each live player with the last punch that lands on it this frame.
pub fn apply_hits(players: &mut Vec<Player>, punches: &Vec<Punch>)
    requires
        forall|i: int|
            0 <= i < old(players)@.len() ==> (#[trigger] old(players)@[i]).wf() && old(
                players,
            )@[i].in_limits(),
        forall|k: int| 0 <= k < punches@.len() ==> (#[trigger] punches@[k]).tip.within(
            0x200_0000_0000,
        ),
    ensures
        final(players)@.len() == old(players)@.len(),
        forall|i: int|
            0 <= i < old(players)@.len() ==> #[trigger] final(players)@[i] == with_hits(
                old(players)@[i],
                punches@,
            ),
        forall|i: int| 0 <= i < final(players)@.len() ==> (#[trigger] final(players)@[i]).wf(),
{
    let ghost ps = players@;
    let n = players.len();
    let mut i: usize = 0;
    while i < n
        invariant
            n == ps.len(),
            0 <= i <= n,
            players@.len() == n,
            forall|i: int| 0 <= i < ps.len() ==> (#[trigger] ps[i]).wf() && ps[i].in_limits(),
            forall|k: int| 0 <= k < punches@.len() ==> (#[trigger] punches@[k]).tip.within(
                0x200_0000_0000,
            ),
            forall|k: int| 0 <= k < i ==> #[trigger] players@[k] == with_hits(ps[k], punches@),
            forall|k: int| 0 <= k < i ==> (#[trigger] players@[k]).wf(),
            forall|k: int| i <= k < n ==> #[trigger] players@[k] == ps[k],
        decreases n - i,
    {
        let orig = players[i];
        let mut p = orig;
        let mut k: usize = 0;
        while k < punches.len()
            invariant
                orig == ps[i as int],
                orig.wf(),
                orig.in_limits(),
                forall|k: int| 0 <= k < punches@.len() ==> (#[trigger] punches@[k]).tip.within(
                    0x200_0000_0000,
                ),
                0 <= k <= punches@.len(),
                p == with_hits(orig, punches@.take(k as int)),
            decreases punches@.len() - k,
        {
            let punch = punches[k];
            proof {
                assert(punches@.take(k + 1).drop_last() == punches@.take(k as int));
                assert(punches@.take(k + 1).last() == punch);
            }
            if orig.state == crate::player::PlayerState::Alive && punch.puncher_id != orig.id
                && touching_exec(orig.position, punch.tip) {
                p.point_timer.reset();
                p.point_recipient = Some(punch.puncher_id);
            }
            k += 1;
        }
        proof {
            assert(punches@.take(punches@.len() as int) == punches@);
            lemma_last_hitter_other(orig, punches@);
        }
        players.set(i, p);
        i += 1;
    }
}

/// The velocity change each player gets from this frame's punches: a push
/// along every punch that lands on it, and a recoil for every player its own
/// punch lands on.
pub fn punch_impulses(players: &Vec<Player>, punches: &Vec<Punch>) -> (r: Vec<Vec2>)
    requires
        players@.len() <= MAX_PLAYERS,
        punches@.len() <= MAX_PLAYERS,
        forall|i: int| 0 <= i < players@.len() ==> (#[trigger] players@[i]).in_limits(),
        forall|k: int|
            0 <= k < punches@.len() ==> (#[trigger] punches@[k]).facing.wf() && punches@[k].tip.within(
                0x200_0000_0000,
            ),
    ensures
        r@.len() == players@.len(),
        forall|i: int|
            0 <= i < players@.len() ==> (#[trigger] r@[i]) == vec_of(
                impulse_spec(i, players@, punches@),
            ) && r@[i].within(0x40000),
{
    let ghost ps = players@;
    let ghost ks = punches@;
    let n = players.len();
    let m = punches.len();
    let mut out: Vec<Vec2> = Vec::new();
    let mut i: usize = 0;
    while i < n
        invariant
            n == ps.len(),
            m == ks.len(),
            m <= MAX_PLAYERS,
            ks == punches@,
            ps == players@,
            forall|i: int| 0 <= i < ps.len() ==> (#[trigger] ps[i]).in_limits(),
            forall|k: int| 0 <= k < ks.len() ==> (#[trigger] ks[k]).facing.wf() && ks[k].tip.within(0x200_0000_0000),
            0 <= i <= n,
            out@.len() == i,
            forall|x: int|
                0 <= x < i ==> (#[trigger] out@[x]) == vec_of(knock_sum(ps[x], ks)) && -72_000
                    <= knock_sum(ps[x], ks).0 <= 72_000 && -72_000 <= knock_sum(ps[x], ks).1
                    <= 72_000,
        decreases n - i,
    {
        let p = players[i];
        let mut ax: i64 = 0;
        let mut ay: i64 = 0;
        let mut k: usize = 0;
        while k < m
            invariant
                m == ks.len(),
                m <= MAX_PLAYERS,
                ks == punches@,
                p == ps[i as int],
                p.in_limits(),
                forall|k: int| 0 <= k < ks.len() ==> (#[trigger] ks[k]).facing.wf() && ks[k].tip.within(0x200_0000_0000),
                0 <= k <= m,
                (ax as int, ay as int) == knock_sum(p, ks.take(k as int)),
                -18_000 * k <= ax <= 18_000 * k,
                -18_000 * k <= ay <= 18_000 * k,
            decreases m - k,
        {
            let punch = punches[k];
            proof {
                assert(ks.take(k + 1).drop_last() == ks.take(k as int));
                assert(ks.take(k + 1).last() == punch);
            }
            if p.state == crate::player::PlayerState::Alive && punch.puncher_id != p.id
                && touching_exec(p.position, punch.tip) {
                let d = punch.facing.direction(PUNCH_PUSHBACK_OTHER * MAX_VELOCITY);
                ax = ax + d.x;
                ay = ay + d.y;
            }
            k += 1;
        }
        proof {
            assert(ks.take(m as int) == ks);
        }
        out.push(Vec2 { x: ax, y: ay });
        proof {
            assert(knock_sum(p, ks) == (ax as int, ay as int));
            assert(vec_of((ax as int, ay as int)) == Vec2 { x: ax, y: ay });
            assert(out@[i as int] == vec_of(knock_sum(ps[i as int], ks)));
        }
        i += 1;
    }
    let mut k: usize = 0;
    while k < m
        invariant
            n == ps.len(),
            n <= MAX_PLAYERS,
            m == ks.len(),
            m <= MAX_PLAYERS,
            ks == punches@,
            ps == players@,
            forall|i: int| 0 <= i < ps.len() ==> (#[trigger] ps[i]).in_limits(),
            forall|k: int| 0 <= k < ks.len() ==> (#[trigger] ks[k]).facing.wf() && ks[k].tip.within(0x200_0000_0000),
            0 <= k <= m,
            out@.len() == n,
            forall|x: int|
                0 <= x < n ==> {
                    let a = knock_sum(ps[x], ks);
                    let b = recoil_sum(x, ps, ks.take(k as int));
                    &&& (#[trigger] out@[x]) == vec_of((a.0 + b.0, a.1 + b.1))
                    &&& -72_000 <= a.0 <= 72_000 && -72_000 <= a.1 <= 72_000
                    &&& -24_000 * k <= b.0 <= 24_000 * k && -24_000 * k <= b.1 <= 24_000 * k
                },
        decreases m - k,
    {
        let punch = punches[k];
        assert(punch.tip.within(0x200_0000_0000));
        let mut hitcount: i64 = 0;
        let mut j: usize = 0;
        while j < n
            invariant
                n == ps.len(),
                n <= MAX_PLAYERS,
                ps == players@,
                punch.tip.within(0x200_0000_0000),
                forall|i: int| 0 <= i < ps.len() ==> (#[trigger] ps[i]).in_limits(),
                0 <= j <= n,
                hitcount == hit_count(ps, punch, j as int),
                0 <= hitcount <= j,
            decreases n - j,
        {
            let q = players[j];
            if q.state == crate::player::PlayerState::Alive && punch.puncher_id != q.id
                && touching_exec(q.position, punch.tip) {
                hitcount = hitcount + 1;
            }
            j += 1;
        }
        let d = punch.facing.direction(-PUNCH_PUSHBACK_SELF * MAX_VELOCITY);
        proof {
            assert(ks.take(k + 1).drop_last() == ks.take(k as int));
            assert(ks.take(k + 1).last() == punch);
            assert(-24_000 <= hitcount * d.x <= 24_000 && -24_000 <= hitcount * d.y <= 24_000)
                by (nonlinear_arith)
                requires
                    0 <= hitcount <= 4,
                    -6000 <= d.x <= 6000,
                    -6000 <= d.y <= 6000,
            ;
        }
        let ghost prev = out@;
        if punch.puncher < n {
            let x = punch.puncher;
            let cur = out[x];
            out.set(x, Vec2 { x: cur.x + hitcount * d.x, y: cur.y + hitcount * d.y });
        }
        proof {
            assert forall|x: int| 0 <= x < n implies {
                let a = knock_sum(ps[x], ks);
                let b = recoil_sum(x, ps, ks.take(k + 1));
                &&& (#[trigger] out@[x]) == vec_of((a.0 + b.0, a.1 + b.1))
                &&& -72_000 <= a.0 <= 72_000 && -72_000 <= a.1 <= 72_000
                &&& -24_000 * (k + 1) <= b.0 <= 24_000 * (k + 1) && -24_000 * (k + 1) <= b.1
                    <= 24_000 * (k + 1)
            } by {
                let a = knock_sum(ps[x], ks);
                let b0 = recoil_sum(x, ps, ks.take(k as int));
                let b = recoil_sum(x, ps, ks.take(k + 1));
                assert(prev[x] == vec_of((a.0 + b0.0, a.1 + b0.1)));
                assert(hitcount == hit_count(ps, punch, ps.len() as int));
                assert(recoil(punch) == (d.x as int, d.y as int));
                if x == punch.puncher {
                    assert(b == (b0.0 + hitcount * d.x, b0.1 + hitcount * d.y));
                    assert(out@[x] == Vec2 { x: (prev[x].x + hitcount * d.x) as i64, y: (prev[x].y
                        + hitcount * d.y) as i64 });
                } else {
                    assert(b == b0);
                    assert(out@[x] == prev[x]);
                }
            }
        }
        k += 1;
    }
    proof {
        assert(ks.take(m as int) == ks);
    }
    out
}

/// The two bodies of `c` are closing in on each other.
pub open spec fn approaching(c: Collision) -> bool {
    (c.pos1.x - c.pos2.x) * (c.vel2.x - c.vel1.x) + (c.pos1.y - c.pos2.y) * (c.vel2.y - c.vel1.y) > 0
}

/// The push given to a body that overlaps another without closing in on it:
/// its velocity grows by `MOVE_SPEED * dt`, then is held at the speed cap.
pub open spec fn nudged(v: Vec2, dt: int) -> Vec2 {
    let g = MS_PER_SECOND + MOVE_SPEED * dt;
    let n = (tdiv(v.x * g, MS_PER_SECOND as int), tdiv(v.y * g, MS_PER_SECOND as int));
    if n.0 * n.0 + n.1 * n.1 > MAX_VELOCITY * MAX_VELOCITY {
        vec_of(scaled_pair(n.0, n.1, MAX_VELOCITY as int))
    } else {
        vec_of(n)
    }
}

/// Velocity of player `id` after it meets collision `c`: unchanged if it is
/// not part of it, nudged if the two bodies are not closing in, and otherwise
/// the elastic exchange.
pub open spec fn respond(v: Vec2, c: Collision, id: PlayerID, dt: int) -> Vec2 {
    if c.player_id1 != id && c.player_id2 != id {
        v
    } else if !approaching(c) {
        nudged(v, dt)
    } else if c.player_id1 == id {
        vec_of(post_velocity(c.vel1, c.vel2, c.pos1, c.pos2))
    } else {
        vec_of(post_velocity(c.vel2, c.vel1, c.pos2, c.pos1))
    }
}

/// Velocity of player `id` after meeting the collisions `cs` in order.
pub open spec fn collided(v: Vec2, id: PlayerID, cs: Seq<Collision>, dt: int) -> Vec2
    decreases cs.len(),
{
    if cs.len() == 0 {
        v
    } else {
        respond(collided(v, id, cs.drop_last(), dt), cs.last(), id, dt)
    }
}

/// Displacement over `dt` milliseconds at velocity `v`.
pub open spec fn travel(v: Vec2, dt: int) -> (int, int) {
    (tdiv(v.x * dt * MOVE_SPEED, MS_PER_SECOND as int), tdiv(
        v.y * dt * MOVE_SPEED,
        MS_PER_SECOND as int,
    ))
}

/// How far, in thousandths, a frame of `dt` milliseconds turns a player
/// toward its stick.
pub open spec fn turn_share(dt: int) -> int {
    if TURN_SPEED * dt >= 1000 {
        1000
    } else {
        TURN_SPEED * dt
    }
}

/// Facing after a frame with right stick `stick`.
pub open spec fn turned_facing(f: Rotation, stick: Vec2, dt: int) -> Rotation {
    if outside_dead_zone(stick) {
        let t = turned_pair(f.pair(), target_pair(stick), turn_share(dt));
        Rotation { w: t.0 as i64, z: t.1 as i64 }
    } else {
        f
    }
}

/// A live player after one frame of movement: drag, stick and speed cap, then
/// the punch impulse, then the collisions, then the step and the turn.
pub open spec fn advanced(
    p: Player,
    input: GamepadInput,
    impulse: Vec2,
    cs: Seq<Collision>,
    dt: int,
) -> Player {
    let s = steered(p.vel, input.left_stick, dt);
    let v = collided(vec_of((s.0 + impulse.x, s.1 + impulse.y)), p.id, cs, dt);
    let t = travel(v, dt);
    Player {
        vel: v,
        position: vec_of((p.position.x + t.0, p.position.y + t.1)),
        facing: turned_facing(p.facing, input.right_stick, dt),
        ..p
    }
}

/// Velocity after the overlap nudge.
fn nudge(v: Vec2, dt: u64) -> (r: Vec2)
    requires
        v.within(0x10_0000_0000),
        dt <= MAX_FRAME_MS,
    ensures
        r == nudged(v, dt as int),
        r.within(MAX_VELOCITY as int),
{
    let g = (MS_PER_SECOND as i128) + (MOVE_SPEED as i128) * (dt as i128);
    let (vx, vy) = (v.x as i128, v.y as i128);
    assert(-0x1000_0000_0000_0000 <= vx * g <= 0x1000_0000_0000_0000 && -0x1000_0000_0000_0000
        <= vy * g <= 0x1000_0000_0000_0000) by (nonlinear_arith)
        requires
            -0x10_0000_0000 <= vx <= 0x10_0000_0000,
            -0x10_0000_0000 <= vy <= 0x10_0000_0000,
            0 <= g <= 26_000,
    ;
    let nx = div_trunc(vx * g, MS_PER_SECOND as i128);
    let ny = div_trunc(vy * g, MS_PER_SECOND as i128);
    proof {
        lemma_tdiv_bound(vx * g, 1000, 0x1000_0000_0000_0000);
        lemma_tdiv_bound(vy * g, 1000, 0x1000_0000_0000_0000);
    }
    let n = Vec2 { x: nx as i64, y: ny as i64 };
    let cap = (MAX_VELOCITY as i128) * (MAX_VELOCITY as i128);
    if n.length_squared() > cap {
        proof {
            n.lemma_nonzero_len_rev();
        }
        scale_to_length(n, MAX_VELOCITY)
    } else {
        assert(-6000 <= n.x <= 6000 && -6000 <= n.y <= 6000) by (nonlinear_arith)
            requires
                n.x * n.x + n.y * n.y <= 36_000_000,
        ;
        n
    }
}

/// Moves one live player through a frame.
pub fn advance_player(
    p: Player,
    input: GamepadInput,
    impulse: Vec2,
    cs: &Vec<Collision>,
    dt: u64,
) -> (r: Player)
    requires
        p.wf(),
        p.in_limits(),
        input.in_range(),
        impulse.within(0x40000),
        forall|k: int| 0 <= k < cs@.len() ==> (#[trigger] cs@[k]).wf(),
        dt <= MAX_FRAME_MS,
    ensures
        r == advanced(p, input, impulse, cs@, dt as int),
        r.wf(),
        r.position.within(0x400_0000_0000),
        r.vel.within(0x10_0000_0000),
{
    let s = steer_velocity(p.vel, input.left_stick, dt);
    let mut v = Vec2 { x: s.x + impulse.x, y: s.y + impulse.y };
    let ghost v0 = v;
    let mut k: usize = 0;
    while k < cs.len()
        invariant
            0 <= k <= cs@.len(),
            forall|k: int| 0 <= k < cs@.len() ==> (#[trigger] cs@[k]).wf(),
            v == collided(v0, p.id, cs@.take(k as int), dt as int),
            v.within(0x10_0000_0000),
            dt <= MAX_FRAME_MS,
        decreases cs@.len() - k,
    {
        let c = cs[k];
        proof {
            assert(cs@.take(k + 1).drop_last() == cs@.take(k as int));
            assert(cs@.take(k + 1).last() == c);
        }
        if let Some(new_velocity) = c.new_velocity(p.id) {
            let relative_vel = Vec2 { x: c.vel2.x - c.vel1.x, y: c.vel2.y - c.vel1.y };
            if !moving_towards(c.pos1, c.pos2, relative_vel) {
                v = nudge(v, dt);
            } else {
                proof {
                    assert(vec_of((new_velocity.x as int, new_velocity.y as int)) == new_velocity);
                    if c.pos1 == c.pos2 {
                        assert(c.pos1.x - c.pos2.x == 0 && c.pos1.y - c.pos2.y == 0);
                        assert((c.pos1.x - c.pos2.x) * (c.vel2.x - c.vel1.x) == 0) by (nonlinear_arith)
                            requires
                                c.pos1.x - c.pos2.x == 0,
                        ;
                        assert((c.pos1.y - c.pos2.y) * (c.vel2.y - c.vel1.y) == 0) by (nonlinear_arith)
                            requires
                                c.pos1.y - c.pos2.y == 0,
                        ;
                    }
                }
                v = new_velocity;
            }
        }
        k += 1;
    }
    proof {
        assert(cs@.take(cs@.len() as int) == cs@);
    }
    let (vx, vy, dti) = (v.x as i128, v.y as i128, dt as i128);
    assert(-0x1000_0000_0000_0000 <= vx * dti * 25 <= 0x1000_0000_0000_0000 && -0x1000_0000_0000_0000
        <= vy * dti * 25 <= 0x1000_0000_0000_0000) by (nonlinear_arith)
        requires
            -0x10_0000_0000 <= vx <= 0x10_0000_0000,
            -0x10_0000_0000 <= vy <= 0x10_0000_0000,
            0 <= dti <= 1000,
    ;
    let tx = div_trunc(vx * dti * (MOVE_SPEED as i128), MS_PER_SECOND as i128);
    let ty = div_trunc(vy * dti * (MOVE_SPEED as i128), MS_PER_SECOND as i128);
    assert(-(0x10_0000_0000int * 25 * 1000) <= vx * dti * 25 <= 0x10_0000_0000int * 25 * 1000 && -(
    0x10_0000_0000int * 25 * 1000) <= vy * dti * 25 <= 0x10_0000_0000int * 25 * 1000)
        by (nonlinear_arith)
        requires
            -0x10_0000_0000 <= vx <= 0x10_0000_0000,
            -0x10_0000_0000 <= vy <= 0x10_0000_0000,
            0 <= dti <= 1000,
    ;
    proof {
        lemma_tdiv_bound(vx * dti * 25, 1000, 0x10_0000_0000int * 25);
        lemma_tdiv_bound(vy * dti * 25, 1000, 0x10_0000_0000int * 25);
    }
    let mut r = p;
    r.vel = v;
    r.position = Vec2 { x: p.position.x + tx as i64, y: p.position.y + ty as i64 };
    let right = input.right_stick;
    let dz = crate::config::DEAD_ZONE_THRESHOLD as i128;
    if right.length_squared() > dz * dz {
        let target = Rotation::toward(right);
        let share: i64 = if TURN_SPEED * (dt as i64) >= 1000 {
            1000
        } else {
            TURN_SPEED * (dt as i64)
        };
        r.facing = p.facing.turn_toward(&target, share);
    }
    r
}

/// The players as they are once this frame's punches have started.
pub open spec fn started(ps: Seq<Player>, ins: Seq<GamepadInput>) -> Seq<Player> {
    Seq::new(
        ps.len(),
        |i: int|
            if wants_punch(ps[i], ins[i]) {
                with_punch_started(ps[i])
            } else {
                ps[i]
            },
    )
}

/// `out` is `ps` after a frame of movement with inputs `ins` and collisions
/// `cs`: every live player has had its punch started, been credited with the
/// hits on it, taken its impulse and been moved; dead players are unchanged.
pub open spec fn moved_as(
    ps: Seq<Player>,
    ins: Seq<GamepadInput>,
    cs: Seq<Collision>,
    dt: int,
    out: Seq<Player>,
) -> bool {
    let st = started(ps, ins);
    let ks = punches_spec(ps, ins, ps.len() as int);
    &&& out.len() == ps.len()
    &&& forall|i: int|
        0 <= i < ps.len() ==> #[trigger] out[i] == if ps[i].is_alive() {
            advanced(with_hits(st[i], ks), ins[i], vec_of(impulse_spec(i, st, ks)), cs, dt)
        } else {
            ps[i]
        }
}

proof fn lemma_dead_not_hit(p: Player, ks: Seq<Punch>)
    requires
        !p.is_alive(),
    ensures
        last_hitter(p, ks).is_none(),
    decreases ks.len(),
{
    if ks.len() > 0 {
        lemma_dead_not_hit(p, ks.drop_last());
    }
}

/// One frame of movement and fighting for every live player: punches start
/// and land, attribution and impulses are handed out, and each live player is
/// moved with the collisions found at the start of the frame. Dead players
/// are left as they are.
pub fn player_physics_system(players: &mut Vec<Player>, inputs: &Vec<GamepadInput>, dt: u64)
    requires
        old(players)@.len() == inputs@.len(),
        old(players)@.len() <= MAX_PLAYERS,
        forall|i: int|
            0 <= i < old(players)@.len() ==> (#[trigger] old(players)@[i]).wf() && old(
                players,
            )@[i].in_limits(),
        forall|i: int| 0 <= i < inputs@.len() ==> (#[trigger] inputs@[i]).in_range(),
        dt <= MAX_FRAME_MS,
    ensures
        final(players)@.len() == old(players)@.len(),
        forall|i: int| 0 <= i < final(players)@.len() ==> (#[trigger] final(players)@[i]).wf(),
        forall|i: int|
            0 <= i < final(players)@.len() ==> (#[trigger] final(players)@[i]).position.within(
                0x400_0000_0000,
            ) && final(players)@[i].vel.within(0x10_0000_0000),
        exists|cs: Seq<Collision>|
            #[trigger] is_collision_set(old(players)@, cs) && moved_as(
                old(players)@,
                inputs@,
                cs,
                dt as int,
                final(players)@,
            ),
{
    let ghost ps = players@;
    let cs = detect_collisions(players);
    let punches = start_punches(players, inputs);
    let ghost st = players@;
    let ghost ks = punches@;
    proof {
        assert(st == started(ps, inputs@));
        lemma_punches_len(ps, inputs@, ps.len() as int);
    }
    let impulses = punch_impulses(players, &punches);
    apply_hits(players, &punches);
    let n = players.len();
    let mut i: usize = 0;
    while i < n
        invariant
            n == ps.len(),
            n == inputs@.len(),
            st == started(ps, inputs@),
            ks == punches_spec(ps, inputs@, ps.len() as int),
            is_collision_set(ps, cs@),
            impulses@.len() == n,
            forall|x: int|
                0 <= x < n ==> (#[trigger] impulses@[x]) == vec_of(impulse_spec(x, st, ks))
                    && impulses@[x].within(0x40000),
            forall|i: int| 0 <= i < inputs@.len() ==> (#[trigger] inputs@[i]).in_range(),
            forall|i: int| 0 <= i < ps.len() ==> (#[trigger] ps[i]).wf() && ps[i].in_limits(),
            dt <= MAX_FRAME_MS,
            0 <= i <= n,
            players@.len() == n,
            forall|x: int|
                0 <= x < i ==> #[trigger] players@[x] == if ps[x].is_alive() {
                    advanced(
                        with_hits(st[x], ks),
                        inputs@[x],
                        vec_of(impulse_spec(x, st, ks)),
                        cs@,
                        dt as int,
                    )
                } else {
                    ps[x]
                },
            forall|x: int|
                0 <= x < i ==> (#[trigger] players@[x]).wf() && players@[x].position.within(
                    0x400_0000_0000,
                ) && players@[x].vel.within(0x10_0000_0000),
            forall|x: int| i <= x < n ==> #[trigger] players@[x] == with_hits(st[x], ks),
            forall|x: int| i <= x < n ==> (#[trigger] players@[x]).wf(),
        decreases n - i,
    {
        let p = players[i];
        proof {
            if !ps[i as int].is_alive() {
                lemma_dead_not_hit(st[i as int], ks);
            }
        }
        if p.state == crate::player::PlayerState::Alive {
            let q = advance_player(p, inputs[i], impulses[i], &cs, dt);
            players.set(i, q);
        } else {
            assert(p.position.within(POS_LIMIT as int));
        }
        i += 1;
    }
    assert(is_collision_set(ps, cs@) && moved_as(ps, inputs@, cs@, dt as int, players@));
}

} // verus!
