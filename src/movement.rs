use crate::config::{
    DEAD_ZONE_THRESHOLD, DRAG_DEN, DRAG_NUM, MAX_FRAME_MS, MAX_VELOCITY, MOVE_SPEED, MS_PER_SECOND,
    UNIT, VEL_LIMIT,
};
use crate::vector::{
    ceil_sqrt_spec, div_trunc, floor_sqrt, isqrt, lemma_tdiv_bound, scale_to_length, tdiv, Vec2,
};
use vstd::prelude::*;

verus! {

/// `(x, y)` rescaled to length `len`, each component rounded toward zero.
pub open spec fn scaled_pair(x: int, y: int, len: int) -> (int, int) {
    let c = ceil_sqrt_spec(x * x + y * y);
    (tdiv(x * len, c), tdiv(y * len, c))
}

/// A stick deflection counts once it leaves the dead zone.
pub open spec fn outside_dead_zone(stick: Vec2) -> bool {
    stick.len_sq() > DEAD_ZONE_THRESHOLD * DEAD_ZONE_THRESHOLD
}

/// Velocity after drag over `dt` milliseconds.
pub open spec fn dragged(v: Vec2, dt: int) -> (int, int) {
    let f = DRAG_DEN - DRAG_NUM * dt;
    (tdiv(v.x * f, DRAG_DEN as int), tdiv(v.y * f, DRAG_DEN as int))
}

/// Velocity gained from the left stick over `dt` milliseconds.
pub open spec fn stick_push(stick: Vec2, dt: int) -> (int, int) {
    (tdiv(stick.x * dt * MOVE_SPEED, MS_PER_SECOND as int), tdiv(
        stick.y * dt * MOVE_SPEED,
        MS_PER_SECOND as int,
    ))
}

/// The speed cap: a body already faster than the cap may not speed up, and
/// one that would is slowed to its old speed less twice the drag; any other
/// body is held at the cap.
pub open spec fn capped(start: Vec2, a: (int, int), dt: int) -> (int, int) {
    let s = start.len_sq();
    let al = a.0 * a.0 + a.1 * a.1;
    if s > MAX_VELOCITY * MAX_VELOCITY {
        if al > s {
            scaled_pair(
                a.0,
                a.1,
                tdiv(floor_sqrt(s) * (DRAG_DEN - 2 * DRAG_NUM * dt), DRAG_DEN as int),
            )
        } else {
            a
        }
    } else if al > MAX_VELOCITY * MAX_VELOCITY {
        scaled_pair(a.0, a.1, MAX_VELOCITY as int)
    } else {
        a
    }
}

/// Velocity after one frame of drag, stick input and the speed cap.
pub open spec fn steered(vel: Vec2, stick: Vec2, dt: int) -> (int, int) {
    let d = dragged(vel, dt);
    let p = stick_push(stick, dt);
    let a = if outside_dead_zone(stick) {
        (d.0 + p.0, d.1 + p.1)
    } else {
        d
    };
    capped(vel, a, dt)
}

/// Whether a body at `obj_pos` moving with `obj_vel` is closing in on `toward_pos`.
pub fn moving_towards(toward_pos: Vec2, obj_pos: Vec2, obj_vel: Vec2) -> (r: bool)
    requires
        toward_pos.within(0x1000_0000_0000_0000),
        obj_pos.within(0x1000_0000_0000_0000),
        obj_vel.within(0x4000_0000_0000_0000),
    ensures
        r == ((toward_pos.x - obj_pos.x) * obj_vel.x + (toward_pos.y - obj_pos.y) * obj_vel.y > 0),
{
    let p = Vec2 { x: toward_pos.x - obj_pos.x, y: toward_pos.y - obj_pos.y };
    p.dot(&obj_vel) > 0
}

/// `|tdiv(a * f, den)| <= |a|` for `0 <= f <= den`.
proof fn lemma_shrink(a: int, f: int, den: int)
    requires
        den > 0,
        0 <= f <= den,
    ensures
        -(if a >= 0 { a } else { -a }) <= tdiv(a * f, den) <= (if a >= 0 { a } else { -a }),
{
    let m = if a >= 0 { a } else { -a };
    assert(-(m * den) <= a * f <= m * den) by (nonlinear_arith)
        requires
            m == a || m == -a,
            m >= 0,
            0 <= f <= den,
    ;
    lemma_tdiv_bound(a * f, den, m);
}

/// Frame velocity update from drag, the left stick and the speed cap. A body
/// over the cap never speeds up; any other body ends at or under the cap.
pub fn steer_velocity(vel: Vec2, stick: Vec2, dt: u64) -> (r: Vec2)
    requires
        vel.within(VEL_LIMIT as int),
        stick.within(UNIT as int),
        dt <= MAX_FRAME_MS,
    ensures
        (r.x as int, r.y as int) == steered(vel, stick, dt as int),
        vel.len_sq() > MAX_VELOCITY * MAX_VELOCITY ==> r.len_sq() <= vel.len_sq(),
        vel.len_sq() <= MAX_VELOCITY * MAX_VELOCITY ==> r.len_sq() <= MAX_VELOCITY * MAX_VELOCITY,
        r.within(2 * VEL_LIMIT),
{
    let start = vel.length_squared();
    let dti = dt as i128;
    let f = (DRAG_DEN as i128) - (DRAG_NUM as i128) * dti;
    let (vx, vy) = (vel.x as i128, vel.y as i128);
    assert(-0x10_0000_0000_0000 <= vx * f <= 0x10_0000_0000_0000 && -0x10_0000_0000_0000 <= vy * f
        <= 0x10_0000_0000_0000) by (nonlinear_arith)
        requires
            -0x1_0000_0000 <= vx <= 0x1_0000_0000,
            -0x1_0000_0000 <= vy <= 0x1_0000_0000,
            0 <= f <= 5000,
    ;
    let dx = div_trunc(vx * f, DRAG_DEN as i128);
    let dy = div_trunc(vy * f, DRAG_DEN as i128);
    proof {
        lemma_shrink(vx as int, f as int, 5000);
        lemma_shrink(vy as int, f as int, 5000);
    }
    let mut a = Vec2 { x: dx as i64, y: dy as i64 };
    let dz = DEAD_ZONE_THRESHOLD as i128;
    assert(dz == 200);
    if stick.length_squared() > dz * dz {
        let (sx, sy) = (stick.x as i128, stick.y as i128);
        assert(-25_000_000 <= sx * dti * 25 <= 25_000_000 && -25_000_000 <= sy * dti * 25 <= 25_000_000)
            by (nonlinear_arith)
            requires
                -1000 <= sx <= 1000,
                -1000 <= sy <= 1000,
                0 <= dti <= 1000,
        ;
        let px = div_trunc(sx * dti * (MOVE_SPEED as i128), MS_PER_SECOND as i128);
        let py = div_trunc(sy * dti * (MOVE_SPEED as i128), MS_PER_SECOND as i128);
        proof {
            lemma_tdiv_bound(sx * dti * 25, 1000, 25_000);
            lemma_tdiv_bound(sy * dti * 25, 1000, 25_000);
        }
        a = Vec2 { x: a.x + px as i64, y: a.y + py as i64 };
    }
    let al = a.length_squared();
    let cap = (MAX_VELOCITY as i128) * (MAX_VELOCITY as i128);
    if start > cap {
        if al > start {
            assert(start <= 0x2_0000_0000_0000_0000) by (nonlinear_arith)
                requires
                    start == vx * vx + vy * vy,
                    -0x1_0000_0000 <= vx <= 0x1_0000_0000,
                    -0x1_0000_0000 <= vy <= 0x1_0000_0000,
            ;
            let s = isqrt(start as u128);
            assert(s <= 0x2_0000_0000) by (nonlinear_arith)
                requires
                    s * s <= start <= 0x2_0000_0000_0000_0000,
                    s >= 0,
            ;
            let g = (DRAG_DEN as i128) - 2 * (DRAG_NUM as i128) * dti;
            let si = s as i128;
            assert(-(si * 5000) <= si * g <= si * 5000 && si * 5000 <= 0x1_0000_0000_0000)
                by (nonlinear_arith)
                requires
                    0 <= si <= 0x2_0000_0000,
                    -5000 <= g <= 5000,
            ;
            let t = div_trunc(si * g, DRAG_DEN as i128);
            proof {
                lemma_tdiv_bound(si * g, 5000, si as int);
                a.lemma_nonzero_len_rev();
            }
            let r = scale_to_length(a, t as i64);
            assert(r.len_sq() <= start) by (nonlinear_arith)
                requires
                    r.len_sq() <= t * t,
                    -si <= t <= si,
                    si * si <= start,
            ;
            r
        } else {
            a
        }
    } else if al > cap {
        proof {
            a.lemma_nonzero_len_rev();
        }
        scale_to_length(a, MAX_VELOCITY)
    } else {
        a
    }
}

} // verus!
