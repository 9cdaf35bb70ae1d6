//! The bird of the side-scroller: friction, jump and gravity, and a speed
//! that never exceeds its limit.

use vstd::prelude::*;
use crate::geometry::{Vector2, trunc_div, COORD_LIMIT};

verus! {

/// The greatest speed of the bird, per frame.
pub const MAX_SPEED: i64 = 10_000;

/// What gravity adds to the downward speed in each frame.
pub const GRAVITY: i64 = 500;

/// The upward acceleration of a jump.
pub const JUMP: i64 = -15_000;

/// Friction takes this part of the speed in each frame.
pub const FRICTION_DIVISOR: i64 = 100;

/// The largest number whose rounded-up root [`ceil_sqrt`] takes: the square
/// of [`ROOT_LIMIT`].
pub const ROOT_LIMIT: u64 = 3_000_000_000_000;

/// `n` is the least whole number whose square is at least `s`.
pub open spec fn is_ceil_sqrt(s: int, n: int) -> bool {
    &&& n >= 0
    &&& n * n >= s
    &&& n == 0 || (n - 1) * (n - 1) < s
}

/// The square root of `s`, rounded up.
pub open spec fn spec_ceil_sqrt(s: int) -> int {
    choose|n: int| is_ceil_sqrt(s, n)
}

/// A number has only one rounded-up root.
pub proof fn lemma_ceil_sqrt_unique(s: int, a: int, b: int)
    requires
        is_ceil_sqrt(s, a),
        is_ceil_sqrt(s, b),
    ensures
        a == b,
{
    if a < b {
        assert(a * a <= (b - 1) * (b - 1)) by (nonlinear_arith)
            requires
                0 <= a <= b - 1,
        ;
    } else if b < a {
        assert(b * b <= (a - 1) * (a - 1)) by (nonlinear_arith)
            requires
                0 <= b <= a - 1,
        ;
    }
}

/// Computes the square root of `s`, rounded up.
pub fn ceil_sqrt(s: u128) -> (n: u64)
    requires
        s <= ROOT_LIMIT * ROOT_LIMIT,
    ensures
        is_ceil_sqrt(s as int, n as int),
        n == spec_ceil_sqrt(s as int),
        n <= ROOT_LIMIT,
{
    let mut lo: u64 = 0;
    let mut hi: u64 = ROOT_LIMIT;
    while lo < hi
        invariant
            lo <= hi <= ROOT_LIMIT,
            hi * hi >= s,
            lo == 0 || (lo - 1) * (lo - 1) < s,
        decreases hi - lo,
    {
        let mid: u64 = lo + (hi - lo) / 2;
        proof {
            assert(mid * mid <= ROOT_LIMIT * ROOT_LIMIT) by (nonlinear_arith)
                requires
                    0 <= mid <= ROOT_LIMIT,
            ;
        }
        let square: u128 = (mid as u128) * (mid as u128);
        if square >= s {
            hi = mid;
        } else {
            lo = mid + 1;
        }
    }
    proof {
        let chosen = spec_ceil_sqrt(s as int);
        assert(is_ceil_sqrt(s as int, hi as int));
        lemma_ceil_sqrt_unique(s as int, hi as int, chosen);
    }
    hi
}

/// The acceleration of one frame: friction against the speed, or the jump in
/// its place, and gravity on top.
pub open spec fn spec_acceleration(vel: Vector2, jump: bool) -> Vector2 {
    if jump {
        Vector2 { x: 0, y: (JUMP + GRAVITY) as i64 }
    } else {
        Vector2 {
            x: (-trunc_div(vel.x as int, FRICTION_DIVISOR as int)) as i64,
            y: (-trunc_div(vel.y as int, FRICTION_DIVISOR as int) + GRAVITY) as i64,
        }
    }
}

/// The velocity `v` itself where it is no faster than the limit, else `v`
/// scaled down to the limit, each part rounded toward zero.
pub open spec fn spec_limit(v: Vector2) -> Vector2 {
    if v.norm_sq() > MAX_SPEED * MAX_SPEED {
        let n = spec_ceil_sqrt(v.norm_sq());
        Vector2 {
            x: trunc_div(v.x * MAX_SPEED, n) as i64,
            y: trunc_div(v.y * MAX_SPEED, n) as i64,
        }
    } else {
        v
    }
}

/// Scaling one part of a velocity by `m / n` and rounding toward zero gives a
/// part whose square, times `n` squared, is at most the square of the part
/// times `m` squared, and which is no larger in magnitude than the part where
/// `m` is at most `n`.
proof fn lemma_scaled_part(x: int, m: int, n: int)
    requires
        0 < m <= n,
    ensures
        trunc_div(x * m, n) * trunc_div(x * m, n) * (n * n) <= x * x * (m * m),
        x >= 0 ==> 0 <= trunc_div(x * m, n) <= x,
        x <= 0 ==> x <= trunc_div(x * m, n) <= 0,
{
    let p = if x >= 0 {
        x * m
    } else {
        -(x * m)
    };
    let q = p / n;
    assert(p >= 0) by (nonlinear_arith)
        requires
            m > 0,
            p == if x >= 0 {
                x * m
            } else {
                -(x * m)
            },
    ;
    assert(0 <= q * n <= p) by (nonlinear_arith)
        requires
            p >= 0,
            n > 0,
            q == p / n,
    ;
    assert(q >= 0) by (nonlinear_arith)
        requires
            p >= 0,
            n > 0,
            q == p / n,
    ;
    assert((q * n) * (q * n) <= p * p) by (nonlinear_arith)
        requires
            0 <= q * n <= p,
    ;
    assert((q * n) * (q * n) == q * q * (n * n)) by (nonlinear_arith);
    assert(p * p == x * x * (m * m)) by (nonlinear_arith)
        requires
            p == x * m || p == -(x * m),
    ;
    let ax = if x >= 0 {
        x
    } else {
        -x
    };
    assert(p == ax * m) by (nonlinear_arith)
        requires
            p == if x >= 0 {
                x * m
            } else {
                -(x * m)
            },
            ax == if x >= 0 {
                x
            } else {
                -x
            },
    ;
    assert(q <= ax) by (nonlinear_arith)
        requires
            0 <= q * n <= p,
            p == ax * m,
            0 < m <= n,
            ax >= 0,
            q >= 0,
    ;
    if x >= 0 {
        assert(trunc_div(x * m, n) == q);
    } else {
        assert(x * m <= 0) by (nonlinear_arith)
            requires
                x <= 0,
                m > 0,
        ;
        if x * m == 0 {
            assert(trunc_div(x * m, n) == 0);
            assert(q == 0);
        } else {
            assert(trunc_div(x * m, n) == -q);
        }
        assert(trunc_div(x * m, n) * trunc_div(x * m, n) == q * q) by (nonlinear_arith)
            requires
                trunc_div(x * m, n) == -q,
        ;
    }
}

/// A limited velocity is never faster than the limit, whatever went in.
pub proof fn lemma_limit_bound(v: Vector2)
    ensures
        spec_limit(v).norm_sq() <= MAX_SPEED * MAX_SPEED,
        -MAX_SPEED <= spec_limit(v).x <= MAX_SPEED,
        -MAX_SPEED <= spec_limit(v).y <= MAX_SPEED,
{
    let m = MAX_SPEED as int;
    let s = v.norm_sq();
    if s > m * m {
        lemma_limit_root(s);
        let n = spec_ceil_sqrt(s);
        let a = trunc_div(v.x * m, n);
        let b = trunc_div(v.y * m, n);
        assert(n > m) by (nonlinear_arith)
            requires
                n >= 0,
                n * n >= s,
                s > m * m,
                m > 0,
        ;
        lemma_scaled_part(v.x as int, m, n);
        lemma_scaled_part(v.y as int, m, n);
        assert(a * a + b * b <= m * m) by (nonlinear_arith)
            requires
                a * a * (n * n) <= v.x * v.x * (m * m),
                b * b * (n * n) <= v.y * v.y * (m * m),
                s == v.x * v.x + v.y * v.y,
                n * n >= s,
                n > 0,
                m > 0,
        ;
        lemma_square_bound(a, b, m);
        lemma_square_bound(b, a, m);
    } else {
        lemma_square_bound(v.x as int, v.y as int, m);
        lemma_square_bound(v.y as int, v.x as int, m);
    }
}

/// Every number that is not negative has a rounded-up root.
proof fn lemma_limit_root(s: int)
    requires
        s >= 0,
    ensures
        is_ceil_sqrt(s, spec_ceil_sqrt(s)),
{
    lemma_root_exists(s, 0);
}

/// Searching upward from a number whose predecessor's square is below `s`
/// finds the rounded-up root of `s`.
proof fn lemma_root_exists(s: int, from: int)
    requires
        s >= 0,
        from >= 0,
        from == 0 || (from - 1) * (from - 1) < s,
    ensures
        exists|n: int| is_ceil_sqrt(s, n),
    decreases s + 1 - from,
{
    if from * from >= s {
        assert(is_ceil_sqrt(s, from));
    } else {
        assert(from < s + 1) by (nonlinear_arith)
            requires
                from * from < s,
                from >= 0,
        ;
        lemma_root_exists(s, from + 1);
    }
}

/// Where two squares add up to at most the square of `m`, the first number is
/// at most `m` in magnitude.
proof fn lemma_square_bound(a: int, b: int, m: int)
    requires
        a * a + b * b <= m * m,
        m >= 0,
    ensures
        -m <= a <= m,
{
    assert(-m <= a <= m) by (nonlinear_arith)
        requires
            a * a + b * b <= m * m,
            m >= 0,
    ;
}

#[derive(Clone, Copy, Debug, PartialEq, Eq, Structural)]
pub struct Bird {
    pub pos: Vector2,
    pub vel: Vector2,
}

impl Bird {
    /// The bird after one frame under the acceleration `acc`: the velocity
    /// gains `acc` and is limited, then the position gains the velocity.
    pub open spec fn spec_integrate(self, acc: Vector2) -> Bird {
        let vel = spec_limit(
            Vector2 { x: (self.vel.x + acc.x) as i64, y: (self.vel.y + acc.y) as i64 },
        );
        Bird {
            pos: Vector2 { x: (self.pos.x + vel.x) as i64, y: (self.pos.y + vel.y) as i64 },
            vel,
        }
    }

    /// The bird after one frame with or without a jump.
    pub open spec fn spec_fly(self, jump: bool) -> Bird {
        self.spec_integrate(spec_acceleration(self.vel, jump))
    }

    /// Computes the acceleration of one frame.
    pub fn acceleration(&self, jump: bool) -> (acc: Vector2)
        requires
            self.vel.in_range(),
        ensures
            acc == spec_acceleration(self.vel, jump),
            acc.in_range(),
    {
        if jump {
            Vector2 { x: 0, y: JUMP + GRAVITY }
        } else {
            Vector2 { x: -part(self.vel.x), y: -part(self.vel.y) + GRAVITY }
        }
    }

    /// Moves the bird by one frame under the acceleration `acc`. Afterwards
    /// the bird is never faster than [`MAX_SPEED`].
    pub fn integrate(&mut self, acc: Vector2)
        requires
            old(self).pos.in_range(),
            old(self).vel.in_range(),
            acc.in_range(),
        ensures
            *final(self) == old(self).spec_integrate(acc),
            final(self).vel.norm_sq() <= MAX_SPEED * MAX_SPEED,
            -MAX_SPEED <= final(self).vel.x <= MAX_SPEED,
            -MAX_SPEED <= final(self).vel.y <= MAX_SPEED,
            old(self).vel.x + acc.x == 0 ==> final(self).vel.x == 0,
    {
        let raw = Vector2 { x: self.vel.x + acc.x, y: self.vel.y + acc.y };
        let vel = limit(raw);
        self.vel = vel;
        self.pos = Vector2 { x: self.pos.x + vel.x, y: self.pos.y + vel.y };
    }

    /// Moves the bird by one frame with or without a jump.
    pub fn fly(&mut self, jump: bool)
        requires
            old(self).pos.in_range(),
            old(self).vel.in_range(),
        ensures
            *final(self) == old(self).spec_fly(jump),
            final(self).vel.norm_sq() <= MAX_SPEED * MAX_SPEED,
            -MAX_SPEED <= final(self).vel.x <= MAX_SPEED,
            -MAX_SPEED <= final(self).vel.y <= MAX_SPEED,
            old(self).vel.x == 0 ==> final(self).vel.x == 0,
    {
        let acc = self.acceleration(jump);
        self.integrate(acc);
    }
}

/// The bird after one frame under each acceleration of `accs` in turn.
pub open spec fn spec_integrate_all(bird: Bird, accs: Seq<Vector2>) -> Bird
    decreases accs.len(),
{
    if accs.len() == 0 {
        bird
    } else {
        spec_integrate_all(bird, accs.drop_last()).spec_integrate(accs.last())
    }
}

/// After any accelerations, one frame each and at least one, the bird is no
/// faster than the limit.
pub proof fn lemma_speed_stays_limited(bird: Bird, accs: Seq<Vector2>)
    requires
        accs.len() > 0,
    ensures
        spec_integrate_all(bird, accs).vel.norm_sq() <= MAX_SPEED * MAX_SPEED,
{
    let before = spec_integrate_all(bird, accs.drop_last());
    let acc = accs.last();
    lemma_limit_bound(
        Vector2 { x: (before.vel.x + acc.x) as i64, y: (before.vel.y + acc.y) as i64 },
    );
}

/// The part of a speed that friction takes.
fn part(speed: i64) -> (r: i64)
    requires
        -COORD_LIMIT <= speed <= COORD_LIMIT,
    ensures
        r == trunc_div(speed as int, FRICTION_DIVISOR as int),
        speed >= 0 ==> 0 <= r <= speed,
        speed <= 0 ==> speed <= r <= 0,
{
    if speed >= 0 {
        speed / FRICTION_DIVISOR
    } else {
        -((-speed) / FRICTION_DIVISOR)
    }
}

/// The quotient of `a` by a positive `d`, rounded toward zero.
fn quotient(a: i64, d: i64) -> (r: i64)
    requires
        d > 0,
        a > -0x7fff_ffff_ffff_ffff,
    ensures
        r == trunc_div(a as int, d as int),
{
    if a >= 0 {
        a / d
    } else {
        -((-a) / d)
    }
}

/// Limits a velocity to [`MAX_SPEED`], keeping its direction.
pub fn limit(v: Vector2) -> (r: Vector2)
    requires
        -2 * COORD_LIMIT <= v.x <= 2 * COORD_LIMIT,
        -2 * COORD_LIMIT <= v.y <= 2 * COORD_LIMIT,
    ensures
        r == spec_limit(v),
        r.norm_sq() <= MAX_SPEED * MAX_SPEED,
        -MAX_SPEED <= r.x <= MAX_SPEED,
        -MAX_SPEED <= r.y <= MAX_SPEED,
        v.x == 0 ==> r.x == 0,
{
    proof {
        lemma_limit_bound(v);
        assert(0 <= v.x * v.x <= 4_000_000_000_000_000_000_000_000) by (nonlinear_arith)
            requires
                -2_000_000_000_000 <= v.x <= 2_000_000_000_000,
        ;
        assert(0 <= v.y * v.y <= 4_000_000_000_000_000_000_000_000) by (nonlinear_arith)
            requires
                -2_000_000_000_000 <= v.y <= 2_000_000_000_000,
        ;
        assert(ROOT_LIMIT * ROOT_LIMIT == 9_000_000_000_000_000_000_000_000) by (nonlinear_arith)
            requires
                ROOT_LIMIT == 3_000_000_000_000,
        ;
    }
    let xx: i128 = (v.x as i128) * (v.x as i128);
    let yy: i128 = (v.y as i128) * (v.y as i128);
    let s: i128 = xx + yy;
    if s > 100_000_000 {
        let n: u64 = ceil_sqrt(s as u128);
        proof {
            assert(n > 10_000) by (nonlinear_arith)
                requires
                    n * n >= s,
                    s > 100_000_000,
                    n >= 0,
            ;
            assert(-20_000_000_000_000_000 <= v.x * 10_000 <= 20_000_000_000_000_000);
            assert(-20_000_000_000_000_000 <= v.y * 10_000 <= 20_000_000_000_000_000);
        }
        let d: i64 = n as i64;
        Vector2 { x: quotient(v.x * MAX_SPEED, d), y: quotient(v.y * MAX_SPEED, d) }
    } else {
        v
    }
}

} // verus!
