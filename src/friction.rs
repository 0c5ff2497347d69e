use vstd::prelude::*;
use crate::motion::{Vec2, speed_ok, MAX_DT, MAX_SPEED};
use vstd::arithmetic::div_mod::{lemma_fundamental_div_mod, lemma_mod_pos_bound};

verus! {

/// Friction in micro-pixels per millisecond squared.
pub const FRICTION_DECEL: u64 = 30;

/// `r` is the integer square root of `n`.
pub open spec fn is_root(r: int, n: int) -> bool {
    0 <= r && r * r <= n < (r + 1) * (r + 1)
}

/// The integer square root of `n`.
pub open spec fn root(n: int) -> int {
    choose|r: int| is_root(r, n)
}

/// The speed of a velocity, rounded down.
pub open spec fn speed(v: Vec2) -> int {
    root(v.x * v.x + v.y * v.y)
}

/// One component after friction `d` against speed `s`: its magnitude drops
/// by `|c| * d / s`, rounded up, and may pass zero.
pub open spec fn shrink(c: int, d: int, s: int) -> int {
    if c >= 0 {
        c - (c * d + s - 1) / s
    } else {
        c + ((-c) * d + s - 1) / s
    }
}

/// A velocity after friction `d`: it loses `d` of speed along its own
/// direction; at rest it stays at rest.
pub open spec fn friction_spec(v: Vec2, d: int) -> Vec2 {
    let s = speed(v);
    if s == 0 {
        v
    } else {
        Vec2 { x: shrink(v.x as int, d, s) as i64, y: shrink(v.y as int, d, s) as i64 }
    }
}

/// A velocity after `k` ticks of friction `d`.
pub open spec fn friction_after(v: Vec2, d: int, k: nat) -> Vec2
    decreases k,
{
    if k == 0 {
        v
    } else {
        friction_spec(friction_after(v, d, (k - 1) as nat), d)
    }
}

proof fn lemma_root_unique(r: int, n: int)
    requires
        is_root(r, n),
    ensures
        root(n) == r,
{
    let q = root(n);
    assert(is_root(q, n));
    if q < r {
        assert((q + 1) * (q + 1) <= r * r) by (nonlinear_arith)
            requires 0 <= q < r;
    } else if q > r {
        assert((r + 1) * (r + 1) <= q * q) by (nonlinear_arith)
            requires 0 <= r < q;
    }
}

/// The integer square root of `n`.
pub fn isqrt(n: u64) -> (r: u64)
    ensures
        is_root(r as int, n as int),
        r as int == root(n as int),
{
    let mut lo: u64 = 0;
    let mut hi: u64 = 0x1_0000_0000;
    assert(hi * hi > n) by (nonlinear_arith)
        requires hi == 0x1_0000_0000, n < 0x1_0000_0000_0000_0000;
    while hi - lo > 1
        invariant
            lo < hi <= 0x1_0000_0000,
            lo * lo <= n,
            n < hi * hi,
        decreases hi - lo,
    {
        let mid = lo + (hi - lo) / 2;
        assert(mid * mid < 0x1_0000_0000_0000_0000) by (nonlinear_arith)
            requires mid < 0x1_0000_0000;
        if mid * mid <= n {
            lo = mid;
        } else {
            hi = mid;
        }
    }
    proof {
        lemma_root_unique(lo as int, n as int);
    }
    lo
}

/// `shrink` on one component, for `|c|` and `d` within the machine range.
fn shrink_component(c: i64, d: u64, s: u64) -> (r: i64)
    requires
        -MAX_SPEED <= c <= MAX_SPEED,
        d <= FRICTION_DECEL * MAX_DT,
        1 <= s <= 0x1_0000_0000,
    ensures
        r == shrink(c as int, d as int, s as int),
{
    let m: u64 = if c >= 0 { c as u64 } else { (-c) as u64 };
    assert(m * d <= MAX_SPEED * (FRICTION_DECEL * MAX_DT)) by (nonlinear_arith)
        requires m <= MAX_SPEED, d <= FRICTION_DECEL * MAX_DT;
    let t = m * d + s - 1;
    let q = t / s;
    assert(q <= t) by (nonlinear_arith)
        requires q == t / s, s >= 1, t >= 0;
    if c >= 0 {
        c - q as i64
    } else {
        c + q as i64
    }
}

/// Friction on the ship for one tick of `dt` milliseconds: a moving ship
/// loses `FRICTION_DECEL * dt` of speed along its direction of travel. The
/// loss is not clamped, so a slow ship can pass through zero.
pub fn apply_friction(vel: Vec2, dt: u32) -> (r: Vec2)
    requires
        speed_ok(vel),
        dt <= MAX_DT,
    ensures
        r == friction_spec(vel, FRICTION_DECEL * dt),
{
    let ax: u64 = if vel.x >= 0 { vel.x as u64 } else { (-vel.x) as u64 };
    let ay: u64 = if vel.y >= 0 { vel.y as u64 } else { (-vel.y) as u64 };
    assert(ax * ax + ay * ay <= 2 * MAX_SPEED * MAX_SPEED) by (nonlinear_arith)
        requires ax <= MAX_SPEED, ay <= MAX_SPEED;
    let n = ax * ax + ay * ay;
    assert(n == vel.x * vel.x + vel.y * vel.y) by (nonlinear_arith)
        requires ax == vel.x || ax == -vel.x, ay == vel.y || ay == -vel.y, n == ax * ax + ay * ay;
    let s = isqrt(n);
    if s == 0 {
        vel
    } else {
        assert(s <= 0x1_0000_0000) by (nonlinear_arith)
            requires s * s <= n, n <= 2 * MAX_SPEED * MAX_SPEED;
        let d = FRICTION_DECEL * dt as u64;
        Vec2 { x: shrink_component(vel.x, d, s), y: shrink_component(vel.y, d, s) }
    }
}

/// One component of at most speed `s` under friction `1 <= d <= s` keeps
/// its sign, and its magnitude shrinks at least to `|c| * (s - d) / s`.
proof fn lemma_shrink_component(c: int, d: int, s: int)
    requires
        1 <= d <= s,
        -s <= c <= s,
    ensures
        c >= 0 ==> 0 <= shrink(c, d, s) <= c,
        c <= 0 ==> c <= shrink(c, d, s) <= 0,
        c != 0 ==> shrink(c, d, s) * shrink(c, d, s) < c * c,
        shrink(c, d, s) * shrink(c, d, s) * (s * s) <= c * c * ((s - d) * (s - d)),
{
    let m = if c >= 0 { c } else { -c };
    let t = m * d + s - 1;
    assert(m * d >= 0) by (nonlinear_arith) requires m >= 0, d >= 1;
    let q = t / s;
    lemma_fundamental_div_mod(t, s);
    lemma_mod_pos_bound(t, s);
    let r = t % s;
    assert(q * s >= m * d && q <= m && (m > 0 ==> q >= 1)) by (nonlinear_arith)
        requires t == s * q + r, 0 <= r < s, t == m * d + s - 1, 0 <= m <= s, 1 <= d <= s;
    let m2 = m - q;
    assert(m2 * s <= m * (s - d)) by (nonlinear_arith)
        requires q * s >= m * d, m2 == m - q;
    let a = m2 * s;
    let b = m * (s - d);
    assert(0 <= a) by (nonlinear_arith) requires 0 <= m2, s >= 1, a == m2 * s;
    assert(a * a <= b * b) by (nonlinear_arith) requires 0 <= a <= b;
    assert(a * a == m2 * m2 * (s * s)) by (nonlinear_arith) requires a == m2 * s;
    assert(b * b == m * m * ((s - d) * (s - d))) by (nonlinear_arith) requires b == m * (s - d);
    assert(m > 0 ==> m2 * m2 < m * m) by (nonlinear_arith)
        requires 0 <= m2 < m || m == 0, m2 == m - q, m > 0 ==> q >= 1;
    if c >= 0 {
        assert(shrink(c, d, s) == m2);
    } else {
        assert(shrink(c, d, s) == -m2);
        assert(c * c == m * m) by (nonlinear_arith) requires m == -c;
        assert((-m2) * (-m2) == m2 * m2) by (nonlinear_arith);
    }
}

/// Friction of `1 <= d <= speed` on a moving velocity: each component keeps
/// its sign and a nonzero one shrinks, and the speed drops by at least `d`.
pub proof fn lemma_friction_tick(v: Vec2, d: int)
    requires
        speed_ok(v),
        1 <= d <= speed(v),
    ensures
        speed_ok(friction_spec(v, d)),
        v.x >= 0 ==> 0 <= friction_spec(v, d).x <= v.x,
        v.x <= 0 ==> v.x <= friction_spec(v, d).x <= 0,
        v.y >= 0 ==> 0 <= friction_spec(v, d).y <= v.y,
        v.y <= 0 ==> v.y <= friction_spec(v, d).y <= 0,
        v.x != 0 ==> friction_spec(v, d).x * friction_spec(v, d).x < v.x * v.x,
        v.y != 0 ==> friction_spec(v, d).y * friction_spec(v, d).y < v.y * v.y,
        speed(friction_spec(v, d)) <= speed(v) - d,
{
    let n = v.x * v.x + v.y * v.y;
    let s = speed(v);
    assert(n >= 0) by (nonlinear_arith) requires n == v.x * v.x + v.y * v.y;
    assert(exists|r: int| is_root(r, n)) by {
        assert(n <= 2 * MAX_SPEED * MAX_SPEED) by (nonlinear_arith)
            requires n == v.x * v.x + v.y * v.y, -MAX_SPEED <= v.x <= MAX_SPEED, -MAX_SPEED <= v.y <= MAX_SPEED;
        let r = isqrt_witness(n);
    }
    assert(is_root(s, n));
    assert(-s <= v.x <= s && -s <= v.y <= s) by (nonlinear_arith)
        requires n == v.x * v.x + v.y * v.y, n < (s + 1) * (s + 1), s >= 0;
    lemma_shrink_component(v.x as int, d, s);
    lemma_shrink_component(v.y as int, d, s);
    let x2 = shrink(v.x as int, d, s);
    let y2 = shrink(v.y as int, d, s);
    let w = friction_spec(v, d);
    assert(w.x == x2 && w.y == y2);
    let n2 = x2 * x2 + y2 * y2;
    assert(n2 >= 0) by (nonlinear_arith) requires n2 == x2 * x2 + y2 * y2;
    assert(n2 * (s * s) <= n * ((s - d) * (s - d))) by (nonlinear_arith)
        requires x2 * x2 * (s * s) <= v.x * v.x * ((s - d) * (s - d)),
            y2 * y2 * (s * s) <= v.y * v.y * ((s - d) * (s - d)),
            n2 == x2 * x2 + y2 * y2, n == v.x * v.x + v.y * v.y;
    let e = s - d;
    assert(n * (e * e) <= (s + 1) * (s + 1) * (e * e)) by (nonlinear_arith)
        requires n < (s + 1) * (s + 1), e >= 0;
    assert((s + 1) * e <= s * (e + 1)) by (nonlinear_arith) requires e == s - d, d >= 1;
    assert((s + 1) * (s + 1) * (e * e) <= s * s * ((e + 1) * (e + 1))) by (nonlinear_arith)
        requires (s + 1) * e <= s * (e + 1), e >= 0, s >= 1;
    assert(n2 * (s * s) < s * s * ((e + 1) * (e + 1))) by (nonlinear_arith)
        requires n2 * (s * s) <= n * (e * e), n * (e * e) <= (s + 1) * (s + 1) * (e * e),
            (s + 1) * (s + 1) * (e * e) <= s * s * ((e + 1) * (e + 1)), e == s - d, e >= 0, s >= 1,
            n < (s + 1) * (s + 1);
    assert(n2 < (e + 1) * (e + 1)) by (nonlinear_arith)
        requires n2 * (s * s) < s * s * ((e + 1) * (e + 1)), s >= 1;
    let s2 = speed(w);
    assert(n2 == w.x * w.x + w.y * w.y);
    assert(exists|r: int| is_root(r, n2)) by {
        let r = isqrt_witness(n2);
    }
    assert(is_root(s2, n2));
    assert(s2 <= s - d) by (nonlinear_arith)
        requires s2 * s2 <= n2, n2 < (s - d + 1) * (s - d + 1), s2 >= 0, s - d >= 0;
}

/// Some integer square root of `n` exists.
proof fn isqrt_witness(n: int) -> (r: int)
    requires
        0 <= n,
    ensures
        is_root(r, n),
    decreases n,
{
    if n == 0 {
        assert(is_root(0, 0));
        0
    } else {
        let p = isqrt_witness(n - 1);
        assert(p * p <= n - 1 && n - 1 < (p + 1) * (p + 1));
        if (p + 1) * (p + 1) <= n {
            assert((p + 1) * (p + 1) == n) by (nonlinear_arith)
                requires (p + 1) * (p + 1) <= n, n - 1 < (p + 1) * (p + 1);
            assert(n < (p + 2) * (p + 2)) by (nonlinear_arith)
                requires (p + 1) * (p + 1) == n, p >= 0;
            assert(is_root(p + 1, n));
            p + 1
        } else {
            assert(p * p <= n);
            assert(is_root(p, n));
            p
        }
    }
}

/// Repeated friction of `d >= 1` with no thrust: as long as every tick so
/// far met a speed of at least `d`, the speed has dropped by `d` per tick.
/// So at most `speed(v) / d` ticks pass before the speed falls below `d`,
/// and the next tick reaches or crosses zero.
pub proof fn lemma_friction_decays(v: Vec2, d: int, k: nat)
    requires
        speed_ok(v),
        1 <= d,
        forall|j: nat| j < k ==> d <= #[trigger] speed(friction_after(v, d, j)),
    ensures
        speed_ok(friction_after(v, d, k)),
        speed(friction_after(v, d, k)) <= speed(v) - k * d,
        k * d <= speed(v),
    decreases k,
{
    if k > 0 {
        let j = (k - 1) as nat;
        lemma_friction_decays(v, d, j);
        let u = friction_after(v, d, j);
        assert(d <= speed(u));
        lemma_friction_tick(u, d);
        assert(friction_after(v, d, k) == friction_spec(u, d));
        assert(k * d == j * d + d) by (nonlinear_arith) requires j == k - 1;
    }
    let w = friction_after(v, d, k);
    assert(speed(w) >= 0) by {
        let n = w.x * w.x + w.y * w.y;
        assert(n >= 0) by (nonlinear_arith) requires n == w.x * w.x + w.y * w.y;
        let r = isqrt_witness(n);
    }
    assert(k * d <= speed(v)) by (nonlinear_arith)
        requires speed(w) <= speed(v) - k * d, speed(w) >= 0;
}

} // verus!
