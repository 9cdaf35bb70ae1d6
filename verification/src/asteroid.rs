//! The asteroids of the shooter: their size classes, how they drift and how
//! a hit splits them.

use vstd::prelude::*;
use crate::geometry::{Heading, Screen, Vector2, UNIT, scale, spec_scale, within, is_within};
use crate::rng::draw_between;

verus! {

/// The size of an asteroid of the largest class.
pub const ASTEROID_SIZE: i64 = 100_000;

/// The margins that a new asteroid keeps from the screen's edges.
pub const SPAWN_MARGIN_LOW: i64 = 35_000;

pub const SPAWN_MARGIN_HIGH: i64 = 36_000;

/// The range of a new asteroid's rotation, in thousandths of a degree.
pub const SPAWN_ROTATION_LOW: i64 = -360_000;

pub const SPAWN_ROTATION_HIGH: i64 = 359_000;

/// The fastest drift that [`Asteroid::mv_with`] takes.
pub const DRIFT_LIMIT: i64 = 1_000_000_000;

/// How many more times an asteroid with this many sides can split: three for
/// the largest class, none for the smallest.
pub open spec fn spec_splits_left(sides: u8) -> nat {
    if 12 <= sides <= 24 {
        3
    } else if 9 <= sides <= 11 {
        2
    } else if 6 <= sides <= 8 {
        1
    } else {
        0
    }
}

/// The fewest and the most sides that are drawn for a class.
pub open spec fn spec_sides_low(splits_left: nat) -> u8 {
    if splits_left >= 3 {
        12
    } else if splits_left == 2 {
        9
    } else if splits_left == 1 {
        6
    } else {
        3
    }
}

pub open spec fn spec_sides_high(splits_left: nat) -> u8 {
    if splits_left >= 3 {
        24
    } else if splits_left == 2 {
        11
    } else if splits_left == 1 {
        8
    } else {
        5
    }
}

/// `sides` is a number of sides that is drawn for the class.
pub open spec fn sides_fit(sides: u8, splits_left: nat) -> bool {
    spec_sides_low(splits_left) <= sides <= spec_sides_high(splits_left)
}

/// The slowest and the fastest drift of a class in one frame: the smaller the
/// asteroid, the faster.
pub open spec fn spec_speed_low(splits_left: nat) -> i64 {
    if splits_left >= 3 {
        4_000
    } else if splits_left == 2 {
        5_000
    } else if splits_left == 1 {
        6_000
    } else {
        7_000
    }
}

pub open spec fn spec_speed_high(splits_left: nat) -> i64 {
    (spec_speed_low(splits_left) + UNIT) as i64
}

/// The largest magnitude that the rotation of an asteroid of a class can have:
/// each split at most triples it.
pub open spec fn spec_rotation_limit(splits_left: nat) -> int {
    if splits_left >= 3 {
        360_000
    } else if splits_left == 2 {
        1_080_000
    } else if splits_left == 1 {
        3_240_000
    } else {
        9_720_000
    }
}

pub fn splits_left(sides: u8) -> (n: u8)
    ensures
        n == spec_splits_left(sides),
{
    if 12 <= sides && sides <= 24 {
        3
    } else if 9 <= sides && sides <= 11 {
        2
    } else if 6 <= sides && sides <= 8 {
        1
    } else {
        0
    }
}

/// What an asteroid is to the rules of the game: everything but the exact
/// number of its sides, of which only the class counts.
pub struct Shape {
    pub position: Vector2,
    pub splits_left: nat,
    pub size: i64,
    pub rotation: i64,
}

impl Shape {
    /// The asteroid itself after a hit that splits it: half the size, one
    /// class down, twice the rotation.
    pub open spec fn shrunk(self) -> Shape {
        Shape {
            position: self.position,
            splits_left: (self.splits_left - 1) as nat,
            size: (self.size / 2) as i64,
            rotation: (self.rotation * 2) as i64,
        }
    }

    /// The second asteroid that such a hit brings: same place, half the
    /// size, one class down, three times the rotation.
    pub open spec fn spawned(self) -> Shape {
        Shape {
            position: self.position,
            splits_left: (self.splits_left - 1) as nat,
            size: (self.size / 2) as i64,
            rotation: (self.rotation * 3) as i64,
        }
    }

    pub open spec fn touches(self, point: Vector2) -> bool {
        within(self.position, point, self.size as int)
    }

    pub open spec fn wf(self) -> bool {
        &&& 0 <= self.size <= ASTEROID_SIZE
        &&& self.splits_left <= 3
        &&& -spec_rotation_limit(self.splits_left) <= self.rotation <= spec_rotation_limit(
            self.splits_left,
        )
    }

    /// How many hits it takes to clear this asteroid and everything that
    /// splits off it.
    pub open spec fn hits_to_clear(self) -> nat {
        if self.splits_left >= 3 {
            15
        } else if self.splits_left == 2 {
            7
        } else if self.splits_left == 1 {
            3
        } else {
            1
        }
    }
}

/// A split leaves one hit less to do: what it takes to clear the two halves,
/// and the hit that split them, is what it took to clear the whole.
pub proof fn lemma_split_leaves_one_hit_less(a: Shape)
    requires
        0 < a.splits_left <= 3,
    ensures
        a.shrunk().hits_to_clear() + a.spawned().hits_to_clear() + 1 == a.hits_to_clear(),
        a.shrunk().size == a.size / 2,
        a.spawned().size == a.size / 2,
{
}

#[derive(Clone, Copy, Debug, PartialEq, Eq, Structural)]
pub struct Asteroid {
    pub position: Vector2,
    pub sides: u8,
    pub size: i64,
    pub rotation: i64,
}

impl View for Asteroid {
    type V = Shape;

    open spec fn view(&self) -> Shape {
        Shape {
            position: self.position,
            splits_left: spec_splits_left(self.sides),
            size: self.size,
            rotation: self.rotation,
        }
    }
}

impl Asteroid {
    /// The shape is valid, and the number of sides is one that is drawn for
    /// the asteroid's class.
    pub open spec fn wf(self) -> bool {
        self@.wf() && sides_fit(self.sides, self@.splits_left)
    }

    /// The asteroid after one frame's drift of `speed` along `heading`,
    /// wrapped at the screen's edges.
    pub open spec fn spec_mv(self, heading: Heading, speed: i64, screen: Screen) -> Asteroid {
        Asteroid {
            position: screen.spec_wrap(
                Vector2 {
                    x: (self.position.x + spec_scale(heading.sin as int, speed as int)) as i64,
                    y: (self.position.y + spec_scale(heading.cos as int, -speed)) as i64,
                },
            ),
            ..self
        }
    }

    /// `self` is what one frame's drift makes of `before`, at some speed of
    /// its class.
    pub open spec fn moved_from(self, before: Asteroid, heading: Heading, screen: Screen) -> bool {
        exists|speed: i64|
            spec_speed_low(before@.splits_left) <= speed <= spec_speed_high(before@.splits_left)
                && self == #[trigger] before.spec_mv(heading, speed, screen)
    }

    /// The asteroid is as a new one is: of the largest class and size,
    /// inside the screen's margins, with a rotation of less than a full turn.
    pub open spec fn is_new(self, screen: Screen) -> bool {
        &&& self@.splits_left == 3
        &&& self.size == ASTEROID_SIZE
        &&& SPAWN_MARGIN_LOW <= self.position.x <= screen.width - SPAWN_MARGIN_HIGH
        &&& SPAWN_MARGIN_LOW <= self.position.y <= screen.height - SPAWN_MARGIN_HIGH
        &&& SPAWN_ROTATION_LOW <= self.rotation <= SPAWN_ROTATION_HIGH
    }

    /// A new asteroid of the largest class, somewhere inside the screen's
    /// margins, with a drawn number of sides and a drawn rotation.
    pub fn new(screen: &Screen) -> (a: Asteroid)
        requires
            screen.wf(),
        ensures
            a.is_new(*screen),
            a.wf(),
            screen.holds(a.position),
    {
        let x: i64 = draw_between(SPAWN_MARGIN_LOW, screen.width - SPAWN_MARGIN_HIGH);
        let y: i64 = draw_between(SPAWN_MARGIN_LOW, screen.height - SPAWN_MARGIN_HIGH);
        let sides: i64 = draw_between(12, 24);
        let rotation: i64 = draw_between(SPAWN_ROTATION_LOW, SPAWN_ROTATION_HIGH);
        Asteroid { position: Vector2 { x, y }, sides: sides as u8, size: ASTEROID_SIZE, rotation }
    }

    /// Tells whether `position` is closer to the asteroid's place than the
    /// asteroid's size.
    pub fn collided(&self, position: &Vector2) -> (hit: bool)
        ensures
            hit == self@.touches(*position),
    {
        is_within(self.position, *position, self.size)
    }

    /// Splits the asteroid with the given numbers of sides for itself and for
    /// the asteroid that splits off, which is returned. An asteroid of the
    /// smallest class stays as it is and returns nothing: it is to be removed.
    pub fn resize_with(&mut self, own_sides: u8, spawn_sides: u8) -> (spawn: Option<Asteroid>)
        requires
            old(self).wf(),
            old(self)@.splits_left > 0 ==> sides_fit(
                own_sides,
                (old(self)@.splits_left - 1) as nat,
            ) && sides_fit(spawn_sides, (old(self)@.splits_left - 1) as nat),
        ensures
            old(self)@.splits_left == 0 ==> spawn.is_none() && *final(self) == *old(self),
            old(self)@.splits_left > 0 ==> spawn.is_some() && final(self)@ == old(self)@.shrunk()
                && spawn.unwrap()@ == old(self)@.spawned() && final(self).sides == own_sides
                && spawn.unwrap().sides == spawn_sides,
            final(self).wf(),
            spawn.is_some() ==> spawn.unwrap().wf(),
    {
        if splits_left(self.sides) == 0 {
            return None;
        }
        let half: i64 = self.size / 2;
        let spawn = Asteroid {
            position: self.position,
            sides: spawn_sides,
            size: half,
            rotation: self.rotation * 3,
        };
        self.sides = own_sides;
        self.size = half;
        self.rotation = self.rotation * 2;
        Some(spawn)
    }

    /// Splits the asteroid as [`Asteroid::resize_with`] does, with numbers of
    /// sides drawn from the next smaller class.
    pub fn resize(&mut self) -> (spawn: Option<Asteroid>)
        requires
            old(self).wf(),
        ensures
            old(self)@.splits_left == 0 ==> spawn.is_none() && *final(self) == *old(self),
            old(self)@.splits_left > 0 ==> spawn.is_some() && final(self)@ == old(self)@.shrunk()
                && spawn.unwrap()@ == old(self)@.spawned(),
            final(self).wf(),
            spawn.is_some() ==> spawn.unwrap().wf(),
    {
        let left: u8 = splits_left(self.sides);
        if left == 0 {
            return None;
        }
        let low: i64 = if left == 3 {
            9
        } else if left == 2 {
            6
        } else {
            3
        };
        let own: i64 = draw_between(low, low + 2);
        let other: i64 = draw_between(low, low + 2);
        self.resize_with(own as u8, other as u8)
    }

    /// Moves the asteroid by `speed` along `heading` and wraps it at the
    /// screen's edges.
    pub fn mv_with(&mut self, heading: Heading, speed: i64, screen: &Screen)
        requires
            screen.wf(),
            heading.wf(),
            screen.holds(old(self).position),
            0 <= speed <= DRIFT_LIMIT,
        ensures
            *final(self) == old(self).spec_mv(heading, speed, *screen),
            screen.holds(final(self).position),
    {
        let dx: i64 = scale(heading.sin, speed);
        let dy: i64 = scale(heading.cos, -speed);
        self.position = screen.wrap(Vector2 { x: self.position.x + dx, y: self.position.y + dy });
    }

    /// Moves the asteroid by one frame's drift, at a speed drawn for its
    /// class.
    pub fn mv(&mut self, heading: Heading, screen: &Screen)
        requires
            screen.wf(),
            heading.wf(),
            screen.holds(old(self).position),
        ensures
            final(self).moved_from(*old(self), heading, *screen),
            screen.holds(final(self).position),
    {
        let left: u8 = splits_left(self.sides);
        let low: i64 = if left == 3 {
            4_000
        } else if left == 2 {
            5_000
        } else if left == 1 {
            6_000
        } else {
            7_000
        };
        let speed: i64 = draw_between(low, low + UNIT);
        self.mv_with(heading, speed, screen);
    }
}

} // verus!
