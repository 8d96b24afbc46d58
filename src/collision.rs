use crate::config::{PlayerID, POS_LIMIT, VEL_LIMIT};
use crate::vector::{div_trunc, lemma_tdiv_bound, tdiv, Vec2};
use vstd::prelude::*;

verus! {

/// Velocity after an equal-mass elastic collision, for the body at `p` moving
/// with `v` against the body at `q` moving with `w`: the part of `v - w` along
/// `p - q` is taken away, each component rounded toward zero.
pub open spec fn post_velocity(v: Vec2, w: Vec2, p: Vec2, q: Vec2) -> (int, int) {
    let dx = p.x - q.x;
    let dy = p.y - q.y;
    let l = dx * dx + dy * dy;
    let d = (v.x - w.x) * dx + (v.y - w.y) * dy;
    (v.x - tdiv(d * dx, l), v.y - tdiv(d * dy, l))
}

/// A collision between two players, with both bodies as they were when it was
/// detected.
#[derive(Clone, Copy, Debug)]
pub struct Collision {
    pub player_id1: PlayerID,
    pub player_id2: PlayerID,
    pub pos1: Vec2,
    pub pos2: Vec2,
    pub vel1: Vec2,
    pub vel2: Vec2,
}

/// The pair of ids in canonical order.
pub open spec fn pair_key(c: Collision) -> (PlayerID, PlayerID) {
    if c.player_id1 <= c.player_id2 {
        (c.player_id1, c.player_id2)
    } else {
        (c.player_id2, c.player_id1)
    }
}

/// Two collisions are the same when they involve the same two players, in
/// either order.
pub open spec fn same_pair(a: Collision, b: Collision) -> bool {
    (a.player_id1 == b.player_id1 && a.player_id2 == b.player_id2) || (a.player_id1
        == b.player_id2 && a.player_id2 == b.player_id1)
}

impl Collision {
    /// Positions and velocities are in the range the simulation accepts.
    pub open spec fn wf(self) -> bool {
        &&& self.pos1.within(POS_LIMIT as int)
        &&& self.pos2.within(POS_LIMIT as int)
        &&& self.vel1.within(VEL_LIMIT as int)
        &&& self.vel2.within(VEL_LIMIT as int)
    }

    /// The canonical `(smaller id, larger id)` pair that identifies this collision.
    pub fn key(&self) -> (r: (PlayerID, PlayerID))
        ensures
            r == pair_key(*self),
    {
        if self.player_id1 <= self.player_id2 {
            (self.player_id1, self.player_id2)
        } else {
            (self.player_id2, self.player_id1)
        }
    }

    /// If `player_id` takes part in this collision, its velocity after the
    /// elastic exchange. Bodies at the very same point have no line between
    /// them, so their velocities are left as they were.
    pub fn new_velocity(&self, player_id: PlayerID) -> (r: Option<Vec2>)
        requires
            self.wf(),
        ensures
            player_id == self.player_id1 && self.pos1 != self.pos2 ==> r.is_some()
                && (r.unwrap().x as int, r.unwrap().y as int) == post_velocity(
                self.vel1,
                self.vel2,
                self.pos1,
                self.pos2,
            ),
            player_id != self.player_id1 && player_id == self.player_id2 && self.pos1 != self.pos2
                ==> r.is_some() && (r.unwrap().x as int, r.unwrap().y as int) == post_velocity(
                self.vel2,
                self.vel1,
                self.pos2,
                self.pos1,
            ),
            player_id == self.player_id1 && self.pos1 == self.pos2 ==> r == Some(self.vel1),
            player_id != self.player_id1 && player_id == self.player_id2 && self.pos1 == self.pos2
                ==> r == Some(self.vel2),
            player_id != self.player_id1 && player_id != self.player_id2 ==> r.is_none(),
            r.is_some() ==> r.unwrap().within(0x8_0000_0000),
    {
        if player_id == self.player_id1 {
            if self.pos1 == self.pos2 {
                Some(self.vel1)
            } else {
                Some(exchange(self.vel1, self.vel2, self.pos1, self.pos2))
            }
        } else if player_id == self.player_id2 {
            if self.pos1 == self.pos2 {
                Some(self.vel2)
            } else {
                Some(exchange(self.vel2, self.vel1, self.pos2, self.pos1))
            }
        } else {
            None
        }
    }
}

/// `|d * a| <= (|u| + |w|) * (a * a + b * b)` where `d = u * a + w * b`.
proof fn lemma_projection_bound(u: int, w: int, a: int, b: int)
    ensures
        ({
            let d = u * a + w * b;
            let s = (if u >= 0 { u } else { -u }) + (if w >= 0 { w } else { -w });
            let l = a * a + b * b;
            -(s * l) <= d * a <= s * l
        }),
{
    let au = if u >= 0 { u } else { -u };
    let aw = if w >= 0 { w } else { -w };
    let aa = if a >= 0 { a } else { -a };
    let ab = if b >= 0 { b } else { -b };
    let m = if aa >= ab { aa } else { ab };
    let d = u * a + w * b;
    let l = a * a + b * b;
    assert(aa * aa == a * a && ab * ab == b * b) by (nonlinear_arith)
        requires
            aa == (if a >= 0 { a } else { -a }),
            ab == (if b >= 0 { b } else { -b }),
    ;
    assert(-(au * aa + aw * ab) <= d <= au * aa + aw * ab) by (nonlinear_arith)
        requires
            d == u * a + w * b,
            au == (if u >= 0 { u } else { -u }),
            aw == (if w >= 0 { w } else { -w }),
            aa == (if a >= 0 { a } else { -a }),
            ab == (if b >= 0 { b } else { -b }),
    ;
    assert(au * aa + aw * ab <= (au + aw) * m) by (nonlinear_arith)
        requires
            au >= 0,
            aw >= 0,
            0 <= aa <= m,
            0 <= ab <= m,
    ;
    assert(m * m <= l) by (nonlinear_arith)
        requires
            m == aa || m == ab,
            aa >= 0,
            ab >= 0,
            l == aa * aa + ab * ab,
    ;
    assert(-((au + aw) * l) <= d * a <= (au + aw) * l) by (nonlinear_arith)
        requires
            -(au * aa + aw * ab) <= d <= au * aa + aw * ab,
            au * aa + aw * ab <= (au + aw) * m,
            m * m <= l,
            0 <= aa <= m,
            aa == (if a >= 0 { a } else { -a }),
            au >= 0,
            aw >= 0,
    ;
}

/// The elastic exchange for the body at `p` with velocity `v` against the one at
/// `q` with velocity `w`.
fn exchange(v: Vec2, w: Vec2, p: Vec2, q: Vec2) -> (r: Vec2)
    requires
        p.within(POS_LIMIT as int),
        q.within(POS_LIMIT as int),
        v.within(VEL_LIMIT as int),
        w.within(VEL_LIMIT as int),
        p != q,
    ensures
        (r.x as int, r.y as int) == post_velocity(v, w, p, q),
        r.within(0x8_0000_0000),
{
    let dx = (p.x - q.x) as i128;
    let dy = (p.y - q.y) as i128;
    let ux = (v.x - w.x) as i128;
    let uy = (v.y - w.y) as i128;
    assert(0 <= dx * dx <= 0x4_0000_0000_0000_0000_0000 && 0 <= dy * dy
        <= 0x4_0000_0000_0000_0000_0000) by (nonlinear_arith)
        requires
            -0x200_0000_0000 <= dx <= 0x200_0000_0000,
            -0x200_0000_0000 <= dy <= 0x200_0000_0000,
    ;
    let l = dx * dx + dy * dy;
    assert(l > 0) by (nonlinear_arith)
        requires
            l == dx * dx + dy * dy,
            dx != 0 || dy != 0,
    ;
    assert(-0x4000_0000_0000_0000_000 <= ux * dx <= 0x4000_0000_0000_0000_000 && -0x4000_0000_0000_0000_000
        <= uy * dy <= 0x4000_0000_0000_0000_000) by (nonlinear_arith)
        requires
            -0x200_0000_0000 <= dx <= 0x200_0000_0000,
            -0x200_0000_0000 <= dy <= 0x200_0000_0000,
            -0x2_0000_0000 <= ux <= 0x2_0000_0000,
            -0x2_0000_0000 <= uy <= 0x2_0000_0000,
    ;
    let d = ux * dx + uy * dy;
    assert(-0x10_0000_0000_0000_0000_0000_0000_0000 <= d * dx <= 0x10_0000_0000_0000_0000_0000_0000_0000
        && -0x10_0000_0000_0000_0000_0000_0000_0000 <= d * dy <= 0x10_0000_0000_0000_0000_0000_0000_0000)
        by (nonlinear_arith)
        requires
            -0x200_0000_0000 <= dx <= 0x200_0000_0000,
            -0x200_0000_0000 <= dy <= 0x200_0000_0000,
            -0x8000_0000_0000_0000_000 <= d <= 0x8000_0000_0000_0000_000,
    ;
    let nx = div_trunc(d * dx, l);
    let ny = div_trunc(d * dy, l);
    proof {
        lemma_projection_bound(ux as int, uy as int, dx as int, dy as int);
        lemma_projection_bound(uy as int, ux as int, dy as int, dx as int);
        let s = (if ux >= 0 { ux as int } else { -ux }) + (if uy >= 0 { uy as int } else { -uy });
        assert((uy * dy + ux * dx) == d);
        assert(dy * dy + dx * dx == l);
        lemma_tdiv_bound(d * dx, l as int, s);
        lemma_tdiv_bound(d * dy, l as int, s);
    }
    Vec2 { x: v.x - nx as i64, y: v.y - ny as i64 }
}

/// Rounding toward zero is odd, and leaves a remainder smaller than the divisor.
proof fn lemma_tdiv_facts(n: int, l: int)
    requires
        l > 0,
    ensures
        tdiv(-n, l) == -tdiv(n, l),
        -l < n - l * tdiv(n, l) < l,
{
    if n >= 0 {
        assert(0 <= n - l * (n / l) < l) by (nonlinear_arith)
            requires
                l > 0,
                n >= 0,
        ;
    } else {
        let q = (-n) / l;
        assert(0 <= (-n) - l * q < l) by (nonlinear_arith)
            requires
                l > 0,
                n < 0,
                q == (-n) / l,
        ;
        assert(l * (-q) == -(l * q)) by (nonlinear_arith);
    }
    if n == 0 {
        assert(0int / l == 0);
    }
}

proof fn lemma_cross_term(k: int, d: int, l: int, a: int, b: int)
    ensures
        2 * (k * d) * (l * b - l * a) == -2 * k * l * ((a - b) * d),
{
    assert(2 * (k * d) * (l * b - l * a) == -2 * k * l * ((a - b) * d)) by (nonlinear_arith);
}

proof fn lemma_square_term(k: int, d: int)
    ensures
        (k * d) * (k * d) == k * k * (d * d),
        2 * (k * d) * (k * d) == 2 * k * k * (d * d),
{
    assert((k * d) * (k * d) == k * k * (d * d)) by (nonlinear_arith);
    assert(2 * (k * d) * (k * d) == 2 * k * k * (d * d)) by (nonlinear_arith);
}

proof fn lemma_distribute(m: int, x: int, y: int)
    ensures
        m * x + m * y == m * (x + y),
{
    assert(m * x + m * y == m * (x + y)) by (nonlinear_arith);
}

proof fn lemma_square_pair(a: int, c: int, b: int)
    ensures
        (a - b) * (a - b) + (c + b) * (c + b) == a * a + c * c + 2 * b * (c - a) + 2 * b * b,
{
    assert((a - b) * (a - b) + (c + b) * (c + b) == a * a + c * c + 2 * b * (c - a) + 2 * b * b)
        by (nonlinear_arith);
}

/// Equal-mass elastic collisions conserve momentum and kinetic energy.
///
/// With `d = pos1 - pos2`, `l = |d|^2` and `k = (vel1 - vel2) . d`, the exact
/// post-collision velocities, scaled by `l`, are `l vel1 - k d` and
/// `l vel2 + k d`: their sum is `l (vel1 + vel2)`, and the sum of their squared
/// lengths is `l^2 (|vel1|^2 + |vel2|^2)`. The computed velocities sum to exactly
/// `vel1 + vel2`, and each of their components, scaled by `l`, lies within `l`
/// of the exact one.
pub proof fn lemma_elastic_conservation(c: Collision)
    requires
        c.pos1 != c.pos2,
    ensures
        ({
            let a = post_velocity(c.vel1, c.vel2, c.pos1, c.pos2);
            let b = post_velocity(c.vel2, c.vel1, c.pos2, c.pos1);
            let dx = c.pos1.x - c.pos2.x;
            let dy = c.pos1.y - c.pos2.y;
            let l = dx * dx + dy * dy;
            let k = (c.vel1.x - c.vel2.x) * dx + (c.vel1.y - c.vel2.y) * dy;
            let ex1 = l * c.vel1.x - k * dx;
            let ey1 = l * c.vel1.y - k * dy;
            let ex2 = l * c.vel2.x + k * dx;
            let ey2 = l * c.vel2.y + k * dy;
            &&& l > 0
            &&& a.0 + b.0 == c.vel1.x + c.vel2.x
            &&& a.1 + b.1 == c.vel1.y + c.vel2.y
            &&& ex1 + ex2 == l * (c.vel1.x + c.vel2.x)
            &&& ey1 + ey2 == l * (c.vel1.y + c.vel2.y)
            &&& ex1 * ex1 + ey1 * ey1 + ex2 * ex2 + ey2 * ey2 == l * l * (c.vel1.len_sq()
                + c.vel2.len_sq())
            &&& -l < l * a.0 - ex1 < l
            &&& -l < l * a.1 - ey1 < l
            &&& -l < l * b.0 - ex2 < l
            &&& -l < l * b.1 - ey2 < l
        }),
{
    let (v1x, v1y, v2x, v2y) = (c.vel1.x as int, c.vel1.y as int, c.vel2.x as int, c.vel2.y as int);
    let dx = c.pos1.x - c.pos2.x;
    let dy = c.pos1.y - c.pos2.y;
    let l = dx * dx + dy * dy;
    let k = (v1x - v2x) * dx + (v1y - v2y) * dy;
    assert(l > 0) by (nonlinear_arith)
        requires
            l == dx * dx + dy * dy,
            dx != 0 || dy != 0,
    ;
    let ex = c.pos2.x - c.pos1.x;
    let ey = c.pos2.y - c.pos1.y;
    assert(ex * ex + ey * ey == l && (v2x - v1x) * ex + (v2y - v1y) * ey == k && k * ex == -(k * dx)
        && k * ey == -(k * dy)) by (nonlinear_arith)
        requires
            ex == -dx,
            ey == -dy,
            l == dx * dx + dy * dy,
            k == (v1x - v2x) * dx + (v1y - v2y) * dy,
    ;
    lemma_tdiv_facts(k * dx, l);
    lemma_tdiv_facts(k * dy, l);
    lemma_square_pair(l * v1x, l * v2x, k * dx);
    lemma_square_pair(l * v1y, l * v2y, k * dy);
    lemma_cross_term(k, dx, l, v1x, v2x);
    lemma_cross_term(k, dy, l, v1y, v2y);
    lemma_distribute(-2 * k * l, (v1x - v2x) * dx, (v1y - v2y) * dy);
    lemma_square_term(k, dx);
    lemma_square_term(k, dy);
    lemma_distribute(2 * k * k, dx * dx, dy * dy);
    lemma_square_term(l, v1x);
    lemma_square_term(l, v1y);
    lemma_square_term(l, v2x);
    lemma_square_term(l, v2y);
    lemma_distribute(l * l, v1x * v1x + v1y * v1y, v2x * v2x + v2y * v2y);
    lemma_distribute(l * l, v1x * v1x, v1y * v1y);
    lemma_distribute(l * l, v2x * v2x, v2y * v2y);
    assert(-2 * k * l * k + 2 * k * k * l == 0) by (nonlinear_arith);
    assert(l * (v1x - tdiv(k * dx, l)) == l * v1x - l * tdiv(k * dx, l)) by (nonlinear_arith);
    assert(l * (v1y - tdiv(k * dy, l)) == l * v1y - l * tdiv(k * dy, l)) by (nonlinear_arith);
    assert(l * (v2x + tdiv(k * dx, l)) == l * v2x + l * tdiv(k * dx, l)) by (nonlinear_arith);
    assert(l * (v2y + tdiv(k * dy, l)) == l * v2y + l * tdiv(k * dy, l)) by (nonlinear_arith);
    assert(l * (v1x + v2x) == l * v1x + l * v2x) by (nonlinear_arith);
    assert(l * (v1y + v2y) == l * v1y + l * v2y) by (nonlinear_arith);
}

/// Collisions in which no pair of players occurs twice.
pub open spec fn pairs_distinct(s: Seq<Collision>) -> bool {
    forall|i: int, j: int| 0 <= i < j < s.len() ==> !same_pair(#[trigger] s[i], #[trigger] s[j])
}

/// Some collision of `s` involves the same two players as `c`.
pub open spec fn has_pair(s: Seq<Collision>, c: Collision) -> bool {
    exists|i: int| 0 <= i < s.len() && same_pair(#[trigger] s[i], c)
}

/// `s` with `c` added, unless its pair is already there.
pub open spec fn inserted(s: Seq<Collision>, c: Collision) -> Seq<Collision> {
    if has_pair(s, c) {
        s
    } else {
        s.push(c)
    }
}

/// Adds `c` to a set of collisions unless one between the same two players is
/// already in it; returns whether it was added.
pub fn insert_collision(set: &mut Vec<Collision>, c: Collision) -> (added: bool)
    ensures
        final(set)@ == inserted(old(set)@, c),
        added == !has_pair(old(set)@, c),
{
    let mut i: usize = 0;
    while i < set.len()
        invariant
            i <= set@.len(),
            forall|j: int| 0 <= j < i ==> !same_pair(#[trigger] set@[j], c),
        decreases set@.len() - i,
    {
        if (set[i].player_id1 == c.player_id1 && set[i].player_id2 == c.player_id2) || (
        set[i].player_id1 == c.player_id2 && set[i].player_id2 == c.player_id1) {
            assert(same_pair(set@[i as int], c));
            return false;
        }
        i += 1;
    }
    set.push(c);
    true
}

/// Inserting keeps a set free of repeated pairs.
pub proof fn lemma_inserted_distinct(s: Seq<Collision>, c: Collision)
    requires
        pairs_distinct(s),
    ensures
        pairs_distinct(inserted(s, c)),
{
}

/// A collision between `a` and `b` and one between `b` and `a` are one entry:
/// inserting both into a set that holds neither pair leaves exactly one
/// collision between them, the first inserted.
pub proof fn lemma_symmetric_pairs_dedup(s: Seq<Collision>, c1: Collision, c2: Collision)
    requires
        c1.player_id1 == c2.player_id2,
        c1.player_id2 == c2.player_id1,
        !has_pair(s, c1),
    ensures
        inserted(inserted(s, c1), c2) == s.push(c1),
        pair_key(c1) == pair_key(c2),
{
    assert(same_pair(s.push(c1)[s.len() as int], c2));
}

} // verus!
