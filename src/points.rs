use crate::config::{
    starting_location, PlayerID, POINTS_LIMIT, POINT_TOUCH_DURATION, WIN_MESSAGE_DURATION,
    WIN_POINTS,
};
use crate::lifecycle::vec_of_start;
use crate::player::Player;
use crate::timer::{ticked, Timer};
use crate::vector::Vec2;
use vstd::prelude::*;

verus! {

/// A player's score.
#[derive(Clone, Copy, Debug, PartialEq, Eq, Structural)]
pub struct Points {
    pub player_id: PlayerID,
    pub value: usize,
}

impl Points {
    /// No points yet.
    pub fn new(player_id: PlayerID) -> (r: Points)
        ensures
            r == (Points { player_id, value: 0 }),
    {
        Points { player_id, value: 0 }
    }
}

/// Shown while a round is won; the round restarts when its timer runs out.
#[derive(Clone, Copy, Debug, PartialEq, Eq, Structural)]
pub struct WinningMessage {
    pub winner: PlayerID,
    pub timer: Timer,
}

/// A player after `dt` milliseconds of attribution decay: the attribution is
/// dropped once the point timer has run out.
pub open spec fn after_decay(p: Player, dt: int) -> Player {
    let e = ticked(p.point_timer, dt);
    Player {
        point_timer: Timer { duration: p.point_timer.duration, elapsed: e },
        point_recipient: if e >= p.point_timer.duration {
            None
        } else {
            p.point_recipient
        },
        ..p
    }
}

/// Runs every player's attribution timer, dropping attributions that have
/// expired.
pub fn point_decay_system(players: &mut Vec<Player>, dt: u64)
    requires
        forall|i: int| 0 <= i < old(players)@.len() ==> (#[trigger] old(players)@[i]).wf(),
    ensures
        final(players)@.len() == old(players)@.len(),
        forall|i: int|
            0 <= i < old(players)@.len() ==> #[trigger] final(players)@[i] == after_decay(
                old(players)@[i],
                dt as int,
            ),
        forall|i: int| 0 <= i < final(players)@.len() ==> (#[trigger] final(players)@[i]).wf(),
{
    let ghost ps = players@;
    let n = players.len();
    let mut i: usize = 0;
    while i < n
        invariant
            n == ps.len(),
            0 <= i <= n,
            players@.len() == n,
            forall|i: int| 0 <= i < ps.len() ==> (#[trigger] ps[i]).wf(),
            forall|k: int| 0 <= k < i ==> #[trigger] players@[k] == after_decay(ps[k], dt as int),
            forall|k: int| 0 <= k < i ==> (#[trigger] players@[k]).wf(),
            forall|k: int| i <= k < n ==> #[trigger] players@[k] == ps[k],
        decreases n - i,
    {
        let mut p = players[i];
        p.point_timer.tick(dt);
        if p.point_timer.finished() {
            p.point_recipient = None;
        }
        players.set(i, p);
        i += 1;
    }
}

/// A player after a run of frames of decay, the frame lengths given in order.
pub open spec fn decayed(p: Player, dts: Seq<u64>) -> Player
    decreases dts.len(),
{
    if dts.len() == 0 {
        p
    } else {
        after_decay(decayed(p, dts.drop_last()), dts.last() as int)
    }
}

/// Total length of a run of frames.
pub open spec fn total(dts: Seq<u64>) -> int
    decreases dts.len(),
{
    if dts.len() == 0 {
        0
    } else {
        total(dts.drop_last()) + dts.last()
    }
}

/// An attribution made when the point timer starts, and not renewed, lasts
/// exactly `POINT_TOUCH_DURATION`: after any run of frames it is still there
/// if and only if the frames add up to less than that.
pub proof fn lemma_attribution_expires(p: Player, dts: Seq<u64>)
    requires
        p.wf(),
        p.point_timer.elapsed == 0,
        p.point_recipient.is_some(),
    ensures
        decayed(p, dts).point_recipient == if total(dts) >= POINT_TOUCH_DURATION {
            None
        } else {
            p.point_recipient
        },
    decreases dts.len(),
{
    lemma_decay_elapsed(p, dts);
}

proof fn lemma_decay_elapsed(p: Player, dts: Seq<u64>)
    requires
        p.wf(),
        p.point_timer.elapsed == 0,
        p.point_recipient.is_some(),
    ensures
        decayed(p, dts).point_timer.duration == POINT_TOUCH_DURATION,
        decayed(p, dts).point_timer.elapsed == if total(dts) >= POINT_TOUCH_DURATION {
            POINT_TOUCH_DURATION as int
        } else {
            total(dts)
        },
        decayed(p, dts).point_recipient == if total(dts) >= POINT_TOUCH_DURATION {
            None
        } else {
            p.point_recipient
        },
        total(dts) >= 0,
    decreases dts.len(),
{
    if dts.len() > 0 {
        lemma_decay_elapsed(p, dts.drop_last());
    }
}

/// How many times `id` occurs in `s`.
pub open spec fn count_of(s: Seq<PlayerID>, id: PlayerID) -> int
    decreases s.len(),
{
    if s.len() == 0 {
        0
    } else {
        count_of(s.drop_last(), id) + if s.last() == id {
            1int
        } else {
            0
        }
    }
}

proof fn lemma_count_le_len(s: Seq<PlayerID>, id: PlayerID)
    ensures
        0 <= count_of(s, id) <= s.len(),
    decreases s.len(),
{
    if s.len() > 0 {
        lemma_count_le_len(s.drop_last(), id);
    }
}

/// Gives each player one point for each time it is credited in `awarded`.
pub fn award_points(points: &mut Vec<Points>, awarded: &Vec<PlayerID>)
    requires
        awarded@.len() <= crate::config::MAX_PLAYERS,
        forall|i: int| 0 <= i < old(points)@.len() ==> (#[trigger] old(points)@[i]).value <= POINTS_LIMIT,
    ensures
        final(points)@.len() == old(points)@.len(),
        forall|i: int|
            0 <= i < old(points)@.len() ==> #[trigger] final(points)@[i] == (Points {
                player_id: old(points)@[i].player_id,
                value: (old(points)@[i].value + count_of(awarded@, old(points)@[i].player_id)) as usize,
            }),
{
    let ghost ps = points@;
    let n = points.len();
    let mut i: usize = 0;
    while i < n
        invariant
            n == ps.len(),
            0 <= i <= n,
            points@.len() == n,
            awarded@.len() <= crate::config::MAX_PLAYERS,
            forall|i: int| 0 <= i < ps.len() ==> (#[trigger] ps[i]).value <= POINTS_LIMIT,
            forall|k: int|
                0 <= k < i ==> #[trigger] points@[k] == (Points {
                    player_id: ps[k].player_id,
                    value: (ps[k].value + count_of(awarded@, ps[k].player_id)) as usize,
                }),
            forall|k: int| i <= k < n ==> #[trigger] points@[k] == ps[k],
        decreases n - i,
    {
        let mut pt = points[i];
        assert(pt.value <= POINTS_LIMIT);
        let mut count: usize = 0;
        let mut j: usize = 0;
        while j < awarded.len()
            invariant
                0 <= j <= awarded@.len(),
                awarded@.len() <= crate::config::MAX_PLAYERS,
                count == count_of(awarded@.take(j as int), pt.player_id),
                count <= j,
            decreases awarded@.len() - j,
        {
            proof {
                assert(awarded@.take(j + 1).drop_last() == awarded@.take(j as int));
            }
            if awarded[j] == pt.player_id {
                count = count + 1;
            }
            j += 1;
        }
        proof {
            assert(awarded@.take(awarded@.len() as int) == awarded@);
        }
        pt.value = pt.value + count;
        points.set(i, pt);
        i += 1;
    }
}

/// The first of `ps` to have reached the winning score.
pub open spec fn first_winner(ps: Seq<Points>) -> Option<PlayerID>
    decreases ps.len(),
{
    if ps.len() == 0 {
        None
    } else if ps[0].value >= WIN_POINTS {
        Some(ps[0].player_id)
    } else {
        first_winner(ps.drop_first())
    }
}

/// Declares a winner when no win is being shown: the first player, in order,
/// whose score has reached `WIN_POINTS`. Returns the winner, and shows the
/// winning message for `WIN_MESSAGE_DURATION`.
pub fn win_system(points: &Vec<Points>, message: &mut Option<WinningMessage>) -> (r: Option<
    PlayerID,
>)
    ensures
        old(message).is_some() ==> r.is_none() && *final(message) == *old(message),
        old(message).is_none() ==> r == first_winner(points@) && *final(message) == match r {
            Some(w) => Some(
                WinningMessage {
                    winner: w,
                    timer: Timer { duration: WIN_MESSAGE_DURATION, elapsed: 0 },
                },
            ),
            None => None,
        },
{
    if message.is_some() {
        return None;
    }
    let mut winning_player: Option<PlayerID> = None;
    let mut i: usize = 0;
    proof {
        assert(points@.subrange(0, points@.len() as int) == points@);
    }
    while i < points.len() && winning_player.is_none()
        invariant
            0 <= i <= points@.len(),
            winning_player.is_none() ==> first_winner(points@) == first_winner(
                points@.subrange(i as int, points@.len() as int),
            ),
            winning_player.is_some() ==> winning_player == first_winner(points@),
        decreases points@.len() - i,
    {
        proof {
            assert(points@.subrange(i as int, points@.len() as int).drop_first() == points@.subrange(
                i + 1,
                points@.len() as int,
            ));
        }
        if points[i].value >= WIN_POINTS {
            winning_player = Some(points[i].player_id);
        }
        i += 1;
    }
    proof {
        if winning_player.is_none() {
            assert(points@.subrange(i as int, points@.len() as int).len() == 0);
        }
    }
    if let Some(player_id) = winning_player {
        *message = Some(WinningMessage { winner: player_id, timer: Timer::new(WIN_MESSAGE_DURATION) });
    }
    winning_player
}

/// A player put back for a new round: at its starting location, at rest.
pub open spec fn restarted(p: Player) -> Player {
    Player { position: vec_of_start(p.id), vel: Vec2 { x: 0, y: 0 }, ..p }
}

/// Runs the winning message's countdown. When it runs out the message goes
/// away and a new round starts: every score goes back to zero and every
/// player back to its starting location, at rest. Returns whether that
/// happened.
pub fn cleanup_win_message_system(
    message: &mut Option<WinningMessage>,
    points: &mut Vec<Points>,
    players: &mut Vec<Player>,
    dt: u64,
) -> (r: bool)
    requires
        *old(message) matches Some(m) ==> m.timer.wf(),
        forall|i: int| 0 <= i < old(players)@.len() ==> (#[trigger] old(players)@[i]).wf(),
    ensures
        final(points)@.len() == old(points)@.len(),
        final(players)@.len() == old(players)@.len(),
        r == (*old(message) matches Some(m) && ticked(m.timer, dt as int) >= m.timer.duration),
        r ==> final(message).is_none(),
        r ==> forall|i: int|
            0 <= i < old(points)@.len() ==> #[trigger] final(points)@[i] == (Points {
                player_id: old(points)@[i].player_id,
                value: 0,
            }),
        r ==> forall|i: int|
            0 <= i < old(players)@.len() ==> #[trigger] final(players)@[i] == restarted(
                old(players)@[i],
            ),
        !r ==> final(points)@ == old(points)@ && final(players)@ == old(players)@,
        !r ==> *final(message) == match *old(message) {
            Some(m) => Some(
                WinningMessage {
                    winner: m.winner,
                    timer: Timer { duration: m.timer.duration, elapsed: ticked(m.timer, dt as int) },
                },
            ),
            None => None,
        },
        forall|i: int| 0 <= i < final(players)@.len() ==> (#[trigger] final(players)@[i]).wf(),
{
    let mut m = match *message {
        Some(m) => m,
        None => {
            return false;
        },
    };
    m.timer.tick(dt);
    if !m.timer.finished() {
        *message = Some(m);
        return false;
    }
    *message = None;
    let ghost pts = points@;
    let mut i: usize = 0;
    while i < points.len()
        invariant
            0 <= i <= points@.len(),
            points@.len() == pts.len(),
            forall|k: int|
                0 <= k < i ==> #[trigger] points@[k] == (Points {
                    player_id: pts[k].player_id,
                    value: 0,
                }),
            forall|k: int| i <= k < pts.len() ==> #[trigger] points@[k] == pts[k],
        decreases pts.len() - i,
    {
        let mut pt = points[i];
        pt.value = 0;
        points.set(i, pt);
        i += 1;
    }
    let ghost ps = players@;
    let mut j: usize = 0;
    while j < players.len()
        invariant
            0 <= j <= players@.len(),
            players@.len() == ps.len(),
            forall|i: int| 0 <= i < ps.len() ==> (#[trigger] ps[i]).wf(),
            forall|k: int| 0 <= k < j ==> #[trigger] players@[k] == restarted(ps[k]),
            forall|k: int| 0 <= k < j ==> (#[trigger] players@[k]).wf(),
            forall|k: int| j <= k < ps.len() ==> #[trigger] players@[k] == ps[k],
        decreases ps.len() - j,
    {
        let mut p = players[j];
        p.position = starting_location(p.id);
        p.vel = Vec2::zero();
        players.set(j, p);
        j += 1;
    }
    true
}

} // verus!
