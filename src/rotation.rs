use crate::vector::{
    ceil_sqrt_spec, div_trunc, floor_sqrt, isqrt, lemma_tdiv_bound, scale_to_length, tdiv, Vec2,
};
use vstd::prelude::*;

verus! {

/// Fixed-point scale of a rotation's components.
pub const ROT_ONE: i64 = 1_000_000;

/// A rotation in the plane, kept as the half-angle pair `(cos(a/2), sin(a/2))`
/// scaled by `ROT_ONE`; `(w, z)` and `(-w, -z)` are the same rotation.
#[derive(Clone, Copy, Debug, PartialEq, Eq, Structural)]
pub struct Rotation {
    pub w: i64,
    pub z: i64,
}

/// `(x, y)` brought to length `ROT_ONE`, each component rounded toward zero.
pub open spec fn normalized_pair(x: int, y: int) -> (int, int) {
    let c = ceil_sqrt_spec(x * x + y * y);
    (tdiv(x * ROT_ONE, c), tdiv(y * ROT_ONE, c))
}

/// The rotation that turns the x axis onto the direction of `stick`: the
/// half-angle direction is the bisector of the x axis and `stick`.
pub open spec fn target_pair(stick: Vec2) -> (int, int) {
    let hx = floor_sqrt(stick.len_sq()) + stick.x;
    let hy = stick.y as int;
    if hx == 0 && hy == 0 {
        (0, ROT_ONE as int)
    } else {
        normalized_pair(hx, hy)
    }
}

/// `q` moved toward `t` by `f` thousandths of the way, along the shorter of
/// the two paths (`q` is negated first when it points away from `t`), then
/// brought back to unit length.
pub open spec fn turned_pair(q: (int, int), t: (int, int), f: int) -> (int, int) {
    let s = if q.0 * t.0 + q.1 * t.1 >= 0 {
        q
    } else {
        (-q.0, -q.1)
    };
    let mx = s.0 + tdiv((t.0 - s.0) * f, 1000);
    let my = s.1 + tdiv((t.1 - s.1) * f, 1000);
    if mx == 0 && my == 0 {
        t
    } else {
        normalized_pair(mx, my)
    }
}

/// The x axis turned by `q`, at length `len`.
pub open spec fn direction_pair(q: (int, int), len: int) -> (int, int) {
    let n = q.0 * q.0 + q.1 * q.1;
    if n == 0 {
        (len, 0)
    } else {
        (tdiv((q.0 * q.0 - q.1 * q.1) * len, n), tdiv(2 * (q.0 * q.1) * len, n))
    }
}

impl Rotation {
    pub open spec fn wf(self) -> bool {
        -ROT_ONE <= self.w <= ROT_ONE && -ROT_ONE <= self.z <= ROT_ONE
    }

    pub open spec fn pair(self) -> (int, int) {
        (self.w as int, self.z as int)
    }

    pub open spec fn identity_spec() -> Rotation {
        Rotation { w: ROT_ONE, z: 0 }
    }

    /// No rotation: facing along the x axis.
    pub fn identity() -> (r: Rotation)
        ensures
            r == Rotation::identity_spec(),
            r.wf(),
    {
        Rotation { w: ROT_ONE, z: 0 }
    }

    /// The rotation that faces along a stick deflection.
    pub fn toward(stick: Vec2) -> (r: Rotation)
        requires
            stick.within(0x1000_0000),
        ensures
            r.pair() == target_pair(stick),
            r.wf(),
    {
        let l2 = stick.length_squared();
        assert(l2 <= 0x200_0000_0000_0000) by (nonlinear_arith)
            requires
                l2 == stick.x * stick.x + stick.y * stick.y,
                -0x1000_0000 <= stick.x <= 0x1000_0000,
                -0x1000_0000 <= stick.y <= 0x1000_0000,
        ;
        let r = isqrt(l2 as u128);
        assert(r <= 0x2000_0000) by (nonlinear_arith)
            requires
                r * r <= l2 <= 0x200_0000_0000_0000,
                r >= 0,
        ;
        let h = Vec2 { x: r as i64 + stick.x, y: stick.y };
        if h.x == 0 && h.y == 0 {
            Rotation { w: 0, z: ROT_ONE }
        } else {
            proof {
                h.lemma_nonzero_len();
            }
            let n = scale_to_length(h, ROT_ONE);
            Rotation { w: n.x, z: n.y }
        }
    }

    /// Moves this rotation `f` thousandths of the way toward `target`, along
    /// the shorter path.
    pub fn turn_toward(&self, target: &Rotation, f: i64) -> (r: Rotation)
        requires
            self.wf(),
            target.wf(),
            0 <= f <= 1000,
        ensures
            r.pair() == turned_pair(self.pair(), target.pair(), f as int),
            r.wf(),
    {
        let (qw, qz, tw, tz) = (self.w as i128, self.z as i128, target.w as i128, target.z as i128);
        assert(-0x1_0000_0000_0000 <= qw * tw <= 0x1_0000_0000_0000 && -0x1_0000_0000_0000 <= qz * tz
            <= 0x1_0000_0000_0000) by (nonlinear_arith)
            requires
                -1_000_000 <= qw <= 1_000_000,
                -1_000_000 <= qz <= 1_000_000,
                -1_000_000 <= tw <= 1_000_000,
                -1_000_000 <= tz <= 1_000_000,
        ;
        let (sw, sz) = if qw * tw + qz * tz >= 0 {
            (qw, qz)
        } else {
            (-qw, -qz)
        };
        let ff = f as i128;
        assert(-2_000_000_000 <= (tw - sw) * ff <= 2_000_000_000 && -2_000_000_000 <= (tz - sz) * ff
            <= 2_000_000_000) by (nonlinear_arith)
            requires
                -2_000_000 <= tw - sw <= 2_000_000,
                -2_000_000 <= tz - sz <= 2_000_000,
                0 <= ff <= 1000,
        ;
        let dw = div_trunc((tw - sw) * ff, 1000);
        let dz = div_trunc((tz - sz) * ff, 1000);
        proof {
            lemma_tdiv_bound((tw - sw) * ff, 1000, 2_000_000);
            lemma_tdiv_bound((tz - sz) * ff, 1000, 2_000_000);
        }
        let m = Vec2 { x: (sw + dw) as i64, y: (sz + dz) as i64 };
        if m.x == 0 && m.y == 0 {
            *target
        } else {
            proof {
                m.lemma_nonzero_len();
            }
            let n = scale_to_length(m, ROT_ONE);
            Rotation { w: n.x, z: n.y }
        }
    }

    /// The x axis turned by this rotation, at length `len`.
    pub fn direction(&self, len: i64) -> (r: Vec2)
        requires
            self.wf(),
            -0x100_0000_0000 <= len <= 0x100_0000_0000,
        ensures
            (r.x as int, r.y as int) == direction_pair(self.pair(), len as int),
            r.within(if len >= 0 { len as int } else { -len }),
    {
        let (w, z, ln) = (self.w as i128, self.z as i128, len as i128);
        assert(0 <= w * w <= 1_000_000_000_000 && 0 <= z * z <= 1_000_000_000_000 && -1_000_000_000_000
            <= w * z <= 1_000_000_000_000) by (nonlinear_arith)
            requires
                -1_000_000 <= w <= 1_000_000,
                -1_000_000 <= z <= 1_000_000,
        ;
        let n = w * w + z * z;
        if n == 0 {
            return Vec2 { x: len, y: 0 };
        }
        let a = w * w - z * z;
        let b = 2 * (w * z);
        let bound = if len >= 0 { ln } else { -ln };
        assert(-n <= a <= n && -n <= b <= n) by (nonlinear_arith)
            requires
                n == w * w + z * z,
                a == w * w - z * z,
                b == 2 * (w * z),
        ;
        assert(-(bound * n) <= a * ln <= bound * n && -(bound * n) <= b * ln <= bound * n
            && bound * n <= 0x200_0000_0000_0000_0000_0000_0000) by (nonlinear_arith)
            requires
                -n <= a <= n,
                -n <= b <= n,
                n <= 2_000_000_000_000,
                bound == ln || bound == -ln,
                bound >= 0,
                bound <= 0x100_0000_0000,
        ;
        let x = div_trunc(a * ln, n);
        let y = div_trunc(b * ln, n);
        proof {
            lemma_tdiv_bound(a * ln, n as int, bound as int);
            lemma_tdiv_bound(b * ln, n as int, bound as int);
        }
        Vec2 { x: x as i64, y: y as i64 }
    }
}

} // verus!
