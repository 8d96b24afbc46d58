use vstd::prelude::*;

verus! {

/// Largest coordinate magnitude on which the vector operations are defined.
pub const COORD_LIMIT: i64 = 0x4000_0000_0000_0000;

/// Quotient of `a` by a positive `b`, rounded toward zero.
pub open spec fn tdiv(a: int, b: int) -> int {
    if a >= 0 {
        a / b
    } else {
        -((-a) / b)
    }
}

/// `r` is the integer square root of `n`.
pub open spec fn is_isqrt(n: int, r: int) -> bool {
    0 <= r && r * r <= n < (r + 1) * (r + 1)
}

/// The integer square root of a non-negative `n`.
pub open spec fn floor_sqrt(n: int) -> int {
    choose|r: int| is_isqrt(n, r)
}

/// The integer square root is unique.
pub proof fn lemma_isqrt_unique(n: int, r1: int, r2: int)
    requires
        is_isqrt(n, r1),
        is_isqrt(n, r2),
    ensures
        r1 == r2,
{
    if r1 < r2 {
        assert((r1 + 1) * (r1 + 1) <= r2 * r2) by (nonlinear_arith)
            requires
                0 <= r1 < r2,
        ;
    } else if r2 < r1 {
        assert((r2 + 1) * (r2 + 1) <= r1 * r1) by (nonlinear_arith)
            requires
                0 <= r2 < r1,
        ;
    }
}

/// `r` is the smallest integer whose square is at least `n`.
pub open spec fn is_ceil_sqrt(n: int, r: int) -> bool {
    0 <= r && n <= r * r && (r == 0 || (r - 1) * (r - 1) < n)
}

/// Division of `a` by a positive `b`, rounded toward zero.
pub fn div_trunc(a: i128, b: i128) -> (r: i128)
    requires
        b > 0,
        a > i128::MIN,
    ensures
        r == tdiv(a as int, b as int),
{
    if a >= 0 {
        a / b
    } else {
        let q = (-a) / b;
        -q
    }
}

/// `|tdiv(n, l)| <= s` when `|n| <= s * l`.
pub proof fn lemma_tdiv_bound(n: int, l: int, s: int)
    requires
        l > 0,
        s >= 0,
        -(s * l) <= n <= s * l,
    ensures
        -s <= tdiv(n, l) <= s,
{
    if n >= 0 {
        assert(n / l <= s) by (nonlinear_arith)
            requires
                l > 0,
                0 <= n <= s * l,
        ;
        assert(n / l >= 0) by (nonlinear_arith)
            requires
                l > 0,
                0 <= n,
        ;
    } else {
        assert((-n) / l <= s) by (nonlinear_arith)
            requires
                l > 0,
                0 <= -n <= s * l,
        ;
        assert((-n) / l >= 0) by (nonlinear_arith)
            requires
                l > 0,
                0 <= -n,
        ;
    }
}

/// Integer square root.
pub fn isqrt(n: u128) -> (r: u64)
    requires
        n < 0x1000_0000_0000_0000_0000_0000_0000_0000,
    ensures
        is_isqrt(n as int, r as int),
        r == floor_sqrt(n as int),
        r < 0x4000_0000_0000_0000,
{
    let mut lo: u128 = 0;
    let mut hi: u128 = 0x4000_0000_0000_0000;
    assert(hi * hi == 0x1000_0000_0000_0000_0000_0000_0000_0000) by (nonlinear_arith)
        requires
            hi == 0x4000_0000_0000_0000u128,
    ;
    while hi - lo > 1
        invariant
            lo < hi <= 0x4000_0000_0000_0000,
            lo * lo <= n < hi * hi,
        decreases hi - lo,
    {
        let mid = lo + (hi - lo) / 2;
        assert(mid * mid <= 0x1000_0000_0000_0000_0000_0000_0000_0000) by (nonlinear_arith)
            requires
                mid <= 0x4000_0000_0000_0000u128,
        ;
        if mid * mid <= n {
            lo = mid;
        } else {
            hi = mid;
        }
    }
    assert(hi == lo + 1);
    proof {
        assert(is_isqrt(n as int, lo as int));
        lemma_isqrt_unique(n as int, lo as int, floor_sqrt(n as int));
    }
    lo as u64
}

/// The smallest integer whose square is at least a non-negative `n`.
pub open spec fn ceil_sqrt_spec(n: int) -> int {
    let r = floor_sqrt(n);
    if r * r == n {
        r
    } else {
        r + 1
    }
}

proof fn lemma_ceil_sqrt_spec(n: int, r: int)
    requires
        n >= 0,
        is_ceil_sqrt(n, r),
    ensures
        r == ceil_sqrt_spec(n),
{
    let f = floor_sqrt(n);
    if r * r == n {
        assert(is_isqrt(n, r)) by (nonlinear_arith)
            requires
                r >= 0,
                r * r == n,
        ;
        lemma_isqrt_unique(n, r, f);
    } else {
        assert(is_isqrt(n, r - 1)) by (nonlinear_arith)
            requires
                n >= 0,
                r >= 0,
                n <= r * r,
                r * r != n,
                r == 0 || (r - 1) * (r - 1) < n,
        ;
        lemma_isqrt_unique(n, r - 1, f);
    }
}

/// Smallest integer whose square is at least `n`.
pub fn ceil_sqrt(n: u128) -> (r: u64)
    requires
        n < 0x1000_0000_0000_0000_0000_0000_0000_0000,
    ensures
        is_ceil_sqrt(n as int, r as int),
        r <= 0x4000_0000_0000_0000,
{
    let s = isqrt(n);
    if (s as u128) * (s as u128) == n {
        assert(s == 0 || (s - 1) * (s - 1) < s * s) by (nonlinear_arith);
        s
    } else {
        s + 1
    }
}

/// A 2D vector in fixed point.
#[derive(Clone, Copy, Debug, PartialEq, Eq, Structural)]
pub struct Vec2 {
    pub x: i64,
    pub y: i64,
}

impl Vec2 {
    pub open spec fn within(self, b: int) -> bool {
        -b <= self.x <= b && -b <= self.y <= b
    }

    pub open spec fn len_sq(self) -> int {
        self.x * self.x + self.y * self.y
    }

    pub open spec fn dot_spec(self, o: Vec2) -> int {
        self.x * o.x + self.y * o.y
    }

    pub proof fn lemma_nonzero_len(self)
        requires
            self.x != 0 || self.y != 0,
        ensures
            self.len_sq() > 0,
    {
        assert(self.x * self.x + self.y * self.y > 0) by (nonlinear_arith)
            requires
                self.x != 0 || self.y != 0,
        ;
    }

    pub proof fn lemma_nonzero_len_rev(self)
        requires
            self.len_sq() > 0,
        ensures
            self.x != 0 || self.y != 0,
    {
    }

    pub fn new(x: i64, y: i64) -> (r: Vec2)
        ensures
            r == (Vec2 { x, y }),
    {
        Vec2 { x, y }
    }

    pub fn zero() -> (r: Vec2)
        ensures
            r == (Vec2 { x: 0, y: 0 }),
    {
        Vec2 { x: 0, y: 0 }
    }

    /// Squared length.
    pub fn length_squared(&self) -> (r: i128)
        requires
            self.within(COORD_LIMIT as int),
        ensures
            r == self.len_sq(),
            r >= 0,
    {
        let x = self.x as i128;
        let y = self.y as i128;
        assert(x * x <= 0x1000_0000_0000_0000_0000_0000_0000_0000 && y * y
            <= 0x1000_0000_0000_0000_0000_0000_0000_0000 && x * x >= 0 && y * y >= 0)
            by (nonlinear_arith)
            requires
                -0x4000_0000_0000_0000 <= x <= 0x4000_0000_0000_0000,
                -0x4000_0000_0000_0000 <= y <= 0x4000_0000_0000_0000,
        ;
        x * x + y * y
    }

    /// Dot product.
    pub fn dot(&self, o: &Vec2) -> (r: i128)
        requires
            self.within(COORD_LIMIT as int),
            o.within(COORD_LIMIT as int),
        ensures
            r == self.dot_spec(*o),
    {
        let (ax, ay, bx, by) = (self.x as i128, self.y as i128, o.x as i128, o.y as i128);
        assert(-0x1000_0000_0000_0000_0000_0000_0000_0000 <= ax * bx
            <= 0x1000_0000_0000_0000_0000_0000_0000_0000 && -0x1000_0000_0000_0000_0000_0000_0000_0000
            <= ay * by <= 0x1000_0000_0000_0000_0000_0000_0000_0000) by (nonlinear_arith)
            requires
                -0x4000_0000_0000_0000 <= ax <= 0x4000_0000_0000_0000,
                -0x4000_0000_0000_0000 <= ay <= 0x4000_0000_0000_0000,
                -0x4000_0000_0000_0000 <= bx <= 0x4000_0000_0000_0000,
                -0x4000_0000_0000_0000 <= by <= 0x4000_0000_0000_0000,
        ;
        ax * bx + ay * by
    }
}

/// `v` rescaled to length `len`, each component rounded toward zero, where `c`
/// is the ceiling of the length of `v`.
pub open spec fn rescaled(v: Vec2, len: int, c: int) -> (int, int) {
    (tdiv(v.x * len, c), tdiv(v.y * len, c))
}

/// `|tdiv(a * len, c)| * c <= |a * len|`.
proof fn lemma_tdiv_mul_bound(a: int, len: int, c: int) -> (q: int)
    requires
        c > 0,
    ensures
        q == tdiv(a * len, c),
        q * q * (c * c) <= (a * a) * (len * len),
{
    let n = a * len;
    let m = if n >= 0 { n } else { -n };
    let aq = m / c;
    assert(0 <= aq && aq * c <= m) by (nonlinear_arith)
        requires
            c > 0,
            m >= 0,
            aq == m / c,
    ;
    assert(aq * aq * (c * c) <= m * m) by (nonlinear_arith)
        requires
            0 <= aq,
            c > 0,
            0 <= aq * c <= m,
    ;
    assert(m * m == (a * a) * (len * len)) by (nonlinear_arith)
        requires
            n == a * len,
            m == n || m == -n,
    ;
    let q = tdiv(n, c);
    assert(q * q == aq * aq) by (nonlinear_arith)
        requires
            q == aq || q == -aq,
    ;
    q
}

/// Rescaling never yields a vector longer than the requested length.
proof fn lemma_rescaled_len(v: Vec2, len: int, c: int)
    requires
        c > 0,
        v.len_sq() <= c * c,
    ensures
        ({
            let r = rescaled(v, len, c);
            r.0 * r.0 + r.1 * r.1 <= len * len
        }),
{
    let qx = lemma_tdiv_mul_bound(v.x as int, len, c);
    let qy = lemma_tdiv_mul_bound(v.y as int, len, c);
    let ll = len * len;
    assert(ll >= 0) by (nonlinear_arith)
        requires
            ll == len * len,
    ;
    assert((qx * qx + qy * qy) * (c * c) <= (v.x * v.x + v.y * v.y) * ll) by (nonlinear_arith)
        requires
            qx * qx * (c * c) <= (v.x * v.x) * ll,
            qy * qy * (c * c) <= (v.y * v.y) * ll,
    ;
    assert((v.x * v.x + v.y * v.y) * ll <= (c * c) * ll) by (nonlinear_arith)
        requires
            v.x * v.x + v.y * v.y <= c * c,
            ll >= 0,
    ;
    assert(qx * qx + qy * qy <= ll) by (nonlinear_arith)
        requires
            (qx * qx + qy * qy) * (c * c) <= (c * c) * ll,
            c > 0,
    ;
}

/// A component is no longer than the vector.
proof fn lemma_component_le_len(v: Vec2, c: int)
    requires
        c >= 0,
        v.len_sq() <= c * c,
    ensures
        -c <= v.x <= c,
        -c <= v.y <= c,
{
    assert(-c <= v.x <= c && -c <= v.y <= c) by (nonlinear_arith)
        requires
            c >= 0,
            v.x * v.x + v.y * v.y <= c * c,
    ;
}

/// `v`, which must not be zero, rescaled to length `len` (a negative `len`
/// also reverses it); the result is never longer than `|len|`.
pub fn scale_to_length(v: Vec2, len: i64) -> (r: Vec2)
    requires
        v.within(0x2000_0000_0000_0000),
        v.len_sq() > 0,
        -COORD_LIMIT <= len <= COORD_LIMIT,
    ensures
        (r.x as int, r.y as int) == rescaled(v, len as int, ceil_sqrt_spec(v.len_sq())),
        r.len_sq() <= len * len,
        r.within(if len >= 0 { len as int } else { -len }),
{
    let l2 = v.length_squared();
    assert(l2 <= 0x800_0000_0000_0000_0000_0000_0000_0000) by (nonlinear_arith)
        requires
            l2 == v.x * v.x + v.y * v.y,
            -0x2000_0000_0000_0000 <= v.x <= 0x2000_0000_0000_0000,
            -0x2000_0000_0000_0000 <= v.y <= 0x2000_0000_0000_0000,
    ;
    let c = ceil_sqrt(l2 as u128);
    assert(c > 0) by (nonlinear_arith)
        requires
            l2 > 0,
            l2 <= c * c,
            c >= 0,
    ;
    proof {
        lemma_ceil_sqrt_spec(l2 as int, c as int);
        lemma_component_le_len(v, c as int);
        lemma_rescaled_len(v, len as int, c as int);
    }
    let (vx, vy, ln, ci) = (v.x as i128, v.y as i128, len as i128, c as i128);
    assert(-0x1000_0000_0000_0000_0000_0000_0000_0000 <= vx * ln <= 0x1000_0000_0000_0000_0000_0000_0000_0000
        && -0x1000_0000_0000_0000_0000_0000_0000_0000 <= vy * ln <= 0x1000_0000_0000_0000_0000_0000_0000_0000)
        by (nonlinear_arith)
        requires
            -0x4000_0000_0000_0000 <= vx <= 0x4000_0000_0000_0000,
            -0x4000_0000_0000_0000 <= vy <= 0x4000_0000_0000_0000,
            -0x4000_0000_0000_0000 <= ln <= 0x4000_0000_0000_0000,
    ;
    let x = div_trunc(vx * ln, ci);
    let y = div_trunc(vy * ln, ci);
    proof {
        let bound = if len >= 0 { len as int } else { -len };
        assert(x * x + y * y <= len * len);
        assert(bound * bound == len * len) by (nonlinear_arith)
            requires
                bound == len || bound == -len,
        ;
        assert(-bound <= x <= bound && -bound <= y <= bound) by (nonlinear_arith)
            requires
                x * x + y * y <= bound * bound,
                bound >= 0,
        ;
    }
    Vec2 { x: x as i64, y: y as i64 }
}

} // verus!
