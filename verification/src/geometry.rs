//! Fixed-point lengths, points and directions, and the distance tests that
//! both games share.

use vstd::prelude::*;

verus! {

/// One screen unit, in thousandths.
pub const UNIT: i64 = 1000;

/// The smallest and the largest side a screen may have.
pub const SCREEN_MIN: i64 = 72_000;

pub const SCREEN_MAX: i64 = 1_000_000_000;

/// The largest magnitude of a coordinate that the games keep.
pub const COORD_LIMIT: i64 = 1_000_000_000_000;

/// A point or a displacement, in thousandths of a screen unit.
#[derive(Clone, Copy, Debug, PartialEq, Eq, Structural)]
pub struct Vector2 {
    pub x: i64,
    pub y: i64,
}

impl Vector2 {
    /// Both coordinates lie within [`COORD_LIMIT`] of zero.
    pub open spec fn in_range(self) -> bool {
        -COORD_LIMIT <= self.x <= COORD_LIMIT && -COORD_LIMIT <= self.y <= COORD_LIMIT
    }

    /// The square of the vector's length.
    pub open spec fn norm_sq(self) -> int {
        self.x * self.x + self.y * self.y
    }
}

/// The sine and cosine of an angle, in thousandths.
#[derive(Clone, Copy, Debug, PartialEq, Eq, Structural)]
pub struct Heading {
    pub sin: i64,
    pub cos: i64,
}

impl Heading {
    pub open spec fn wf(self) -> bool {
        -UNIT <= self.sin <= UNIT && -UNIT <= self.cos <= UNIT
    }

    /// The heading of angle zero: straight up the screen.
    pub fn up() -> (h: Heading)
        ensures
            h == (Heading { sin: 0, cos: UNIT }),
            h.wf(),
    {
        Heading { sin: 0, cos: UNIT }
    }

    /// A heading from a sine and a cosine, if neither exceeds one unit.
    pub fn new(sin: i64, cos: i64) -> (h: Option<Heading>)
        ensures
            h == if (Heading { sin, cos }).wf() {
                Some(Heading { sin, cos })
            } else {
                None
            },
    {
        if -UNIT <= sin && sin <= UNIT && -UNIT <= cos && cos <= UNIT {
            Some(Heading { sin, cos })
        } else {
            None
        }
    }
}

/// The playing field: positions run from zero to `width` and to `height`.
#[derive(Clone, Copy, Debug, PartialEq, Eq, Structural)]
pub struct Screen {
    pub width: i64,
    pub height: i64,
}

impl Screen {
    pub open spec fn wf(self) -> bool {
        SCREEN_MIN <= self.width <= SCREEN_MAX && SCREEN_MIN <= self.height <= SCREEN_MAX
    }

    /// `p` lies on the field, its edges included.
    pub open spec fn holds(self, p: Vector2) -> bool {
        0 <= p.x <= self.width && 0 <= p.y <= self.height
    }

    /// The middle of the field.
    pub open spec fn spec_center(self) -> Vector2 {
        Vector2 { x: (self.width / 2) as i64, y: (self.height / 2) as i64 }
    }

    /// A screen of the given size, if both sides are within the limits.
    pub fn new(width: i64, height: i64) -> (s: Option<Screen>)
        ensures
            s == if (Screen { width, height }).wf() {
                Some(Screen { width, height })
            } else {
                None
            },
    {
        if SCREEN_MIN <= width && width <= SCREEN_MAX && SCREEN_MIN <= height && height
            <= SCREEN_MAX {
            Some(Screen { width, height })
        } else {
            None
        }
    }

    pub fn center(&self) -> (c: Vector2)
        requires
            self.wf(),
        ensures
            c == self.spec_center(),
            self.holds(c),
    {
        Vector2 { x: self.width / 2, y: self.height / 2 }
    }

    /// Wraps a point that left the field to the opposite edge, each axis
    /// by itself.
    pub fn wrap(&self, p: Vector2) -> (q: Vector2)
        ensures
            q == self.spec_wrap(p),
    {
        Vector2 { x: wrap_axis(p.x, self.width), y: wrap_axis(p.y, self.height) }
    }

    pub open spec fn spec_wrap(self, p: Vector2) -> Vector2 {
        Vector2 { x: spec_wrap_axis(p.x, self.width), y: spec_wrap_axis(p.y, self.height) }
    }

    /// A wrapped point lies on the field.
    pub proof fn lemma_wrap_holds(self, p: Vector2)
        requires
            self.wf(),
        ensures
            self.holds(self.spec_wrap(p)),
    {
    }
}

/// A coordinate past `max` becomes zero, one below zero becomes `max`.
pub open spec fn spec_wrap_axis(v: i64, max: i64) -> i64 {
    if v > max {
        0
    } else if v < 0 {
        max
    } else {
        v
    }
}

pub fn wrap_axis(v: i64, max: i64) -> (r: i64)
    ensures
        r == spec_wrap_axis(v, max),
{
    if v > max {
        0
    } else if v < 0 {
        max
    } else {
        v
    }
}

/// The quotient of `a` by a positive `d`, rounded toward zero.
pub open spec fn trunc_div(a: int, d: int) -> int {
    if a >= 0 {
        a / d
    } else {
        -((-a) / d)
    }
}

/// The product of a factor in thousandths and a length, in thousandths.
pub open spec fn spec_scale(factor: int, length: int) -> int {
    trunc_div(factor * length, UNIT as int)
}

/// A scaled length is no longer than the length itself when the factor is at
/// most one unit.
pub proof fn lemma_scale_bound(factor: int, length: int)
    requires
        -UNIT <= factor <= UNIT,
    ensures
        length >= 0 ==> -length <= spec_scale(factor, length) <= length,
        length <= 0 ==> length <= spec_scale(factor, length) <= -length,
{
    let p = factor * length;
    assert(length >= 0 ==> -1000 * length <= p <= 1000 * length) by (nonlinear_arith)
        requires
            -1000 <= factor <= 1000,
            p == factor * length,
    ;
    assert(length <= 0 ==> 1000 * length <= p <= -1000 * length) by (nonlinear_arith)
        requires
            -1000 <= factor <= 1000,
            p == factor * length,
    ;
}

pub fn scale(factor: i64, length: i64) -> (r: i64)
    requires
        -UNIT <= factor <= UNIT,
        -COORD_LIMIT <= length <= COORD_LIMIT,
    ensures
        r == spec_scale(factor as int, length as int),
        length >= 0 ==> -length <= r <= length,
        length <= 0 ==> length <= r <= -length,
{
    proof {
        lemma_scale_bound(factor as int, length as int);
        assert(-1000 * 1_000_000_000_000 <= factor * length <= 1000 * 1_000_000_000_000)
            by (nonlinear_arith)
            requires
                -1000 <= factor <= 1000,
                -1_000_000_000_000 <= length <= 1_000_000_000_000,
        ;
    }
    let p: i64 = factor * length;
    if p >= 0 {
        p / UNIT
    } else {
        -((-p) / UNIT)
    }
}

/// The square of the distance between two points.
pub open spec fn dist_sq(a: Vector2, b: Vector2) -> int {
    (a.x - b.x) * (a.x - b.x) + (a.y - b.y) * (a.y - b.y)
}

/// `a` is closer to `b` than `radius`.
pub open spec fn within(a: Vector2, b: Vector2, radius: int) -> bool {
    radius > 0 && dist_sq(a, b) < radius * radius
}

/// The magnitude of the difference of two coordinates.
fn gap(a: i64, b: i64) -> (d: u64)
    ensures
        d == if a >= b {
            a - b
        } else {
            b - a
        },
{
    if a >= b {
        ((a as i128) - (b as i128)) as u64
    } else {
        ((b as i128) - (a as i128)) as u64
    }
}

/// Tells whether `a` is closer to `b` than `radius`. No distance is too
/// large for it.
pub fn is_within(a: Vector2, b: Vector2, radius: i64) -> (r: bool)
    ensures
        r == within(a, b, radius as int),
{
    if radius <= 0 {
        return false;
    }
    let dx: u64 = gap(a.x, b.x);
    let dy: u64 = gap(a.y, b.y);
    let reach: u64 = radius as u64;
    proof {
        assert(dx * dx == (a.x - b.x) * (a.x - b.x)) by (nonlinear_arith)
            requires
                dx == a.x - b.x || dx == b.x - a.x,
        ;
        assert(dy * dy == (a.y - b.y) * (a.y - b.y)) by (nonlinear_arith)
            requires
                dy == a.y - b.y || dy == b.y - a.y,
        ;
    }
    if dx >= reach || dy >= reach {
        proof {
            assert(dx >= reach ==> dx * dx >= reach * reach) by (nonlinear_arith);
            assert(dy >= reach ==> dy * dy >= reach * reach) by (nonlinear_arith);
            assert(dx * dx >= 0 && dy * dy >= 0) by (nonlinear_arith);
        }
        return false;
    }
    proof {
        assert(dx * dx < 0x8000_0000_0000_0000 * 0x8000_0000_0000_0000) by (nonlinear_arith)
            requires
                0 <= dx < 0x8000_0000_0000_0000,
        ;
        assert(dy * dy < 0x8000_0000_0000_0000 * 0x8000_0000_0000_0000) by (nonlinear_arith)
            requires
                0 <= dy < 0x8000_0000_0000_0000,
        ;
        assert(reach * reach <= 0x8000_0000_0000_0000 * 0x8000_0000_0000_0000)
            by (nonlinear_arith)
            requires
                0 <= reach < 0x8000_0000_0000_0000,
        ;
    }
    let sx: u128 = (dx as u128) * (dx as u128);
    let sy: u128 = (dy as u128) * (dy as u128);
    sx + sy < (reach as u128) * (reach as u128)
}

/// Calls `macroquad::math::clamp` on whole numbers. The claim is the
/// function's whole body: `min` where the value is below it, else `max` where
/// the value is above it, else the value.
#[verifier::external_body]
pub(crate) fn clamp_between(value: i64, min: i64, max: i64) -> (r: i64)
    ensures
        r == spec_clamp(value, min, max),
{
    macroquad::math::clamp(value, min, max)
}

pub open spec fn spec_clamp(value: i64, min: i64, max: i64) -> i64 {
    if value < min {
        min
    } else if value > max {
        max
    } else {
        value
    }
}

/// The point of the rectangle with corner `(x, y)`, width `w` and height `h`
/// that lies nearest to `p`.
pub open spec fn nearest_in_rect(p: Vector2, x: i64, y: i64, w: i64, h: i64) -> Vector2 {
    Vector2 {
        x: spec_clamp(p.x, x, (x + w) as i64),
        y: spec_clamp(p.y, y, (y + h) as i64),
    }
}

/// `p` is closer than `radius` to the rectangle.
pub open spec fn near_rect(p: Vector2, x: i64, y: i64, w: i64, h: i64, radius: int) -> bool {
    within(p, nearest_in_rect(p, x, y, w, h), radius)
}

/// Tells whether `p` is closer than `radius` to the rectangle with corner
/// `(x, y)`, width `w` and height `h`.
pub fn is_near_rect(p: Vector2, x: i64, y: i64, w: i64, h: i64, radius: i64) -> (r: bool)
    requires
        -COORD_LIMIT <= x <= COORD_LIMIT,
        -COORD_LIMIT <= y <= COORD_LIMIT,
        -COORD_LIMIT <= w <= COORD_LIMIT,
        -COORD_LIMIT <= h <= COORD_LIMIT,
    ensures
        r == near_rect(p, x, y, w, h, radius as int),
{
    let nearest = Vector2 { x: clamp_between(p.x, x, x + w), y: clamp_between(p.y, y, y + h) };
    is_within(p, nearest, radius)
}

} // verus!
