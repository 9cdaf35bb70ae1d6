//! The player's ship in the shooter, and the bullets it fires.

use vstd::prelude::*;
use crate::geometry::{Heading, Screen, Vector2, UNIT, COORD_LIMIT, scale, spec_scale};
use crate::rng::{draw_between, reseed};

verus! {

/// How far the ship turns in one frame, in thousandths of a degree.
pub const SHIP_ROTATION_SPEED: i64 = 5_000;

/// How far the ship travels in one frame under thrust.
pub const SHIP_MOVING_SPEED: i64 = 4_000;

/// The largest magnitude of the ship's rotation, in thousandths of a degree:
/// what still leaves room for one more turn in a machine word.
pub const ROTATION_LIMIT: i64 = 9_000_000_000_000_000_000;

/// How long a bullet flies, in milliseconds.
pub const BULLET_RANGE: u64 = 1_000;

/// The shortest time between two shots, in milliseconds.
pub const BULLET_DELAY: u64 = 100;

/// The least and the greatest step of a bullet in one frame, sideways and
/// forward alike.
pub const BULLET_STEP_MIN: i64 = 5_000;

pub const BULLET_STEP_MAX: i64 = 10_000;

#[derive(Clone, Copy, Debug, PartialEq, Eq, Structural)]
pub struct Bullet {
    pub position: Vector2,
    /// The ship's rotation when the bullet was fired.
    pub rotation: i64,
    /// The direction of that rotation.
    pub heading: Heading,
    pub time_shot_out: u64,
    pub collided: bool,
}

impl Bullet {
    pub open spec fn wf(self) -> bool {
        self.position.in_range() && self.heading.wf()
    }

    /// The bullet has flown for its whole range at time `now`.
    pub open spec fn spec_expired(self, now: u64) -> bool {
        now - self.time_shot_out >= BULLET_RANGE
    }

    /// The bullet stays in play at time `now`: it has neither hit anything nor
    /// flown its whole range.
    pub open spec fn live(self, now: u64) -> bool {
        !self.spec_expired(now) && !self.collided
    }

    /// The bullet after one frame's flight with the given steps, wrapped at
    /// the screen's edges.
    pub open spec fn spec_update(self, lateral: i64, forward: i64, screen: Screen) -> Bullet {
        Bullet {
            position: screen.spec_wrap(
                Vector2 {
                    x: (self.position.x + spec_scale(self.heading.sin as int, lateral as int)) as i64,
                    y: (self.position.y + spec_scale(self.heading.cos as int, forward as int)) as i64,
                },
            ),
            ..self
        }
    }

    /// `self` is what one frame's flight makes of `before`, for some sideways
    /// step and some forward step within the bullet's range of steps.
    pub open spec fn updated_from(self, before: Bullet, screen: Screen) -> bool {
        exists|lateral: i64, forward: i64|
            BULLET_STEP_MIN <= lateral <= BULLET_STEP_MAX && -BULLET_STEP_MAX <= forward
                <= -BULLET_STEP_MIN && self == #[trigger] before.spec_update(
                lateral,
                forward,
                screen,
            )
    }

    /// A bullet fired at time `now` from `position`.
    pub fn new(position: Vector2, rotation: i64, heading: Heading, now: u64) -> (b: Bullet)
        ensures
            b == (Bullet { position, rotation, heading, time_shot_out: now, collided: false }),
    {
        Bullet { position, rotation, heading, time_shot_out: now, collided: false }
    }

    /// Tells whether the bullet has flown for its whole range.
    pub fn expired(&self, now: u64) -> (r: bool)
        ensures
            r == self.spec_expired(now),
    {
        now >= self.time_shot_out && now - self.time_shot_out >= BULLET_RANGE
    }

    /// Moves the bullet by the given steps along its heading and wraps it at
    /// the screen's edges.
    pub fn update_with(&mut self, lateral: i64, forward: i64, screen: &Screen)
        requires
            screen.wf(),
            old(self).wf(),
            -COORD_LIMIT <= lateral <= COORD_LIMIT,
            -COORD_LIMIT <= forward <= COORD_LIMIT,
        ensures
            *final(self) == old(self).spec_update(lateral, forward, *screen),
            final(self).wf(),
            screen.holds(final(self).position),
    {
        let dx: i64 = scale(self.heading.sin, lateral);
        let dy: i64 = scale(self.heading.cos, forward);
        self.position = screen.wrap(Vector2 { x: self.position.x + dx, y: self.position.y + dy });
    }

    /// Moves the bullet by one frame's flight, with drawn steps.
    pub fn update(&mut self, screen: &Screen)
        requires
            screen.wf(),
            old(self).wf(),
        ensures
            final(self).updated_from(*old(self), *screen),
            final(self).wf(),
            screen.holds(final(self).position),
    {
        let forward: i64 = draw_between(-BULLET_STEP_MAX, -BULLET_STEP_MIN);
        let lateral: i64 = draw_between(BULLET_STEP_MIN, BULLET_STEP_MAX);
        self.update_with(lateral, forward, screen);
    }
}

/// The bullets of `bullets` that stay in play at time `now`, in their order.
pub open spec fn live_bullets(bullets: Seq<Bullet>, now: u64) -> Seq<Bullet>
    decreases bullets.len(),
{
    if bullets.len() == 0 {
        Seq::empty()
    } else if bullets.last().live(now) {
        live_bullets(bullets.drop_last(), now).push(bullets.last())
    } else {
        live_bullets(bullets.drop_last(), now)
    }
}

/// Every bullet that stays in play was there before, and there are no more
/// of them than before.
pub proof fn lemma_live_bullets(bullets: Seq<Bullet>, now: u64)
    ensures
        live_bullets(bullets, now).len() <= bullets.len(),
        forall|i: int|
            0 <= i < live_bullets(bullets, now).len() ==> bullets.contains(
                #[trigger] live_bullets(bullets, now)[i],
            ) && live_bullets(bullets, now)[i].live(now),
        forall|j: int|
            0 <= j < bullets.len() && bullets[j].live(now) ==> live_bullets(
                bullets,
                now,
            ).contains(#[trigger] bullets[j]),
    decreases bullets.len(),
{
    if bullets.len() > 0 {
        let front = bullets.drop_last();
        lemma_live_bullets(front, now);
        let kept = live_bullets(bullets, now);
        let kept_front = live_bullets(front, now);
        assert forall|i: int| 0 <= i < kept.len() implies bullets.contains(#[trigger] kept[i])
            && kept[i].live(now) by {
            if i < kept_front.len() {
                assert(kept[i] == kept_front[i]);
                let k = choose|k: int| 0 <= k < front.len() && front[k] == kept_front[i];
                assert(bullets[k] == kept[i]);
            } else {
                assert(kept[i] == bullets[bullets.len() - 1]);
            }
        }
        assert forall|j: int| 0 <= j < bullets.len() && bullets[j].live(now) implies kept.contains(
            #[trigger] bullets[j],
        ) by {
            if j < front.len() {
                assert(front[j] == bullets[j]);
                let k = choose|k: int| 0 <= k < kept_front.len() && kept_front[k] == front[j];
                assert(kept[k] == bullets[j]);
            } else {
                assert(kept[kept.len() - 1] == bullets[j]);
            }
        }
    }
}

/// A bullet that hit nothing stays in play exactly as long as less than its
/// range has passed since it was fired.
pub proof fn lemma_bullet_lifetime(bullets: Seq<Bullet>, j: int, now: u64)
    requires
        0 <= j < bullets.len(),
        !bullets[j].collided,
    ensures
        live_bullets(bullets, now).contains(bullets[j]) <==> now - bullets[j].time_shot_out
            < BULLET_RANGE,
{
    lemma_live_bullets(bullets, now);
    let kept = live_bullets(bullets, now);
    if kept.contains(bullets[j]) {
        let i = choose|i: int| 0 <= i < kept.len() && kept[i] == bullets[j];
        assert(kept[i].live(now));
    }
}

/// Two fire keys that are no more than the delay apart bring at most one
/// bullet.
pub proof fn lemma_fire_rate(ship: ShipView, first: Heading, t1: u64, second: Heading, t2: u64)
    requires
        t1 <= t2,
        t2 - t1 <= BULLET_DELAY,
    ensures
        ship.shoot(first, t1).shoot(second, t2).bullets.len() <= ship.bullets.len() + 1,
{
}

/// The keys that steer the ship in one frame.
#[derive(Clone, Copy, Debug, PartialEq, Eq, Structural)]
pub struct ShipInput {
    pub thrust: bool,
    pub left: bool,
    pub right: bool,
    pub fire: bool,
    pub shield: bool,
}

#[derive(Clone, Debug)]
pub struct Ship {
    pub position: Vector2,
    /// In thousandths of a degree.
    pub rotation: i64,
    pub bullets: Vec<Bullet>,
    pub has_shield: bool,
    pub last_time_shot: u64,
}

/// A ship as the contracts see it.
pub struct ShipView {
    pub position: Vector2,
    pub rotation: i64,
    pub bullets: Seq<Bullet>,
    pub has_shield: bool,
    pub last_time_shot: u64,
}

/// The rotation after one frame with the given turn keys: five degrees less
/// for the left key, five degrees more for the right key.
pub open spec fn spec_turn(rotation: i64, left: bool, right: bool) -> int {
    rotation - (if left {
        SHIP_ROTATION_SPEED as int
    } else {
        0
    }) + (if right {
        SHIP_ROTATION_SPEED as int
    } else {
        0
    })
}

impl ShipView {
    /// The turn that the keys ask for leaves the rotation within its limit.
    pub open spec fn can_turn(self, input: ShipInput) -> bool {
        -ROTATION_LIMIT <= spec_turn(self.rotation, input.left, input.right) <= ROTATION_LIMIT
    }

    /// A shot is due at time `now`: more than the delay has passed since the
    /// last one.
    pub open spec fn can_shoot(self, now: u64) -> bool {
        now - self.last_time_shot > BULLET_DELAY
    }

    /// The ship after a fire key at time `now`.
    pub open spec fn shoot(self, heading: Heading, now: u64) -> ShipView {
        if self.can_shoot(now) {
            ShipView {
                bullets: self.bullets.push(
                    Bullet {
                        position: self.position,
                        rotation: self.rotation,
                        heading,
                        time_shot_out: now,
                        collided: false,
                    },
                ),
                last_time_shot: now,
                ..self
            }
        } else {
            self
        }
    }

    /// The ship's place after one frame with or without thrust, not yet
    /// wrapped.
    pub open spec fn thrust(self, on: bool, heading: Heading) -> ShipView {
        if on {
            ShipView {
                position: Vector2 {
                    x: (self.position.x + spec_scale(
                        heading.sin as int,
                        SHIP_MOVING_SPEED as int,
                    )) as i64,
                    y: (self.position.y + spec_scale(
                        heading.cos as int,
                        -SHIP_MOVING_SPEED as int,
                    )) as i64,
                },
                ..self
            }
        } else {
            self
        }
    }

    /// The ship after one frame with the given keys at time `now`: thrust,
    /// then the shot, then shield and turn, then the wrap at the screen's
    /// edges. The shield is up exactly while its key is held and no shot is
    /// asked for.
    pub open spec fn mv(self, input: ShipInput, heading: Heading, now: u64, screen: Screen)
        -> ShipView {
        let pushed = self.thrust(input.thrust, heading);
        let shot = if input.fire {
            pushed.shoot(heading, now)
        } else {
            pushed
        };
        ShipView {
            position: screen.spec_wrap(shot.position),
            rotation: spec_turn(shot.rotation, input.left, input.right) as i64,
            has_shield: input.shield && !input.fire,
            ..shot
        }
    }
}

impl View for Ship {
    type V = ShipView;

    open spec fn view(&self) -> ShipView {
        ShipView {
            position: self.position,
            rotation: self.rotation,
            bullets: self.bullets@,
            has_shield: self.has_shield,
            last_time_shot: self.last_time_shot,
        }
    }
}

impl Ship {
    pub open spec fn wf(self, screen: Screen) -> bool {
        &&& screen.holds(self.position)
        &&& -ROTATION_LIMIT <= self.rotation <= ROTATION_LIMIT
        &&& forall|i: int| 0 <= i < self.bullets@.len() ==> (#[trigger] self.bullets@[i]).wf()
    }

    /// The ship that a session starts with: in the middle of the screen,
    /// pointing up, with no bullets and no shield.
    pub open spec fn spec_new(screen: Screen, now: u64) -> ShipView {
        ShipView {
            position: screen.spec_center(),
            rotation: 0,
            bullets: Seq::empty(),
            has_shield: false,
            last_time_shot: now,
        }
    }

    /// A new ship at time `now`. The generator behind the random draws is
    /// restarted from `seed`.
    pub fn new(screen: &Screen, now: u64, seed: u64) -> (ship: Ship)
        requires
            screen.wf(),
        ensures
            ship@ == Ship::spec_new(*screen, now),
            ship.wf(*screen),
    {
        reseed(seed);
        Ship {
            position: screen.center(),
            rotation: 0,
            bullets: Vec::new(),
            has_shield: false,
            last_time_shot: now,
        }
    }

    /// Fires a bullet from the ship's place at time `now`, unless the last
    /// shot is too recent.
    pub fn shoot(&mut self, heading: Heading, now: u64)
        ensures
            final(self)@ == old(self)@.shoot(heading, now),
    {
        if now > self.last_time_shot && now - self.last_time_shot > BULLET_DELAY {
            self.bullets.push(Bullet::new(self.position, self.rotation, heading, now));
            self.last_time_shot = now;
        }
    }

    /// Tells whether the turn that the keys ask for leaves the rotation within
    /// its limit, which [`Ship::mv`] asks of its caller.
    pub fn can_turn(&self, input: &ShipInput) -> (r: bool)
        ensures
            r == self@.can_turn(*input),
    {
        let mut turned: i128 = self.rotation as i128;
        if input.left {
            turned = turned - (SHIP_ROTATION_SPEED as i128);
        }
        if input.right {
            turned = turned + (SHIP_ROTATION_SPEED as i128);
        }
        -(ROTATION_LIMIT as i128) <= turned && turned <= (ROTATION_LIMIT as i128)
    }

    /// Applies one frame's keys to the ship. `heading` is the direction of the
    /// ship's rotation before the frame.
    pub fn mv(&mut self, input: &ShipInput, heading: Heading, now: u64, screen: &Screen)
        requires
            screen.wf(),
            heading.wf(),
            old(self).wf(*screen),
            old(self)@.can_turn(*input),
        ensures
            final(self)@ == old(self)@.mv(*input, heading, now, *screen),
            final(self).wf(*screen),
    {
        if input.thrust {
            let dx: i64 = scale(heading.sin, SHIP_MOVING_SPEED);
            let dy: i64 = scale(heading.cos, -SHIP_MOVING_SPEED);
            self.position = Vector2 { x: self.position.x + dx, y: self.position.y + dy };
        }
        if input.fire {
            self.shoot(heading, now);
        }
        self.has_shield = input.shield && !input.fire;
        if input.left {
            self.rotation = self.rotation - SHIP_ROTATION_SPEED;
        }
        if input.right {
            self.rotation = self.rotation + SHIP_ROTATION_SPEED;
        }
        self.position = screen.wrap(self.position);
        proof {
            assert(final(self)@.bullets =~= old(self)@.mv(*input, heading, now, *screen).bullets);
        }
    }

    /// Moves every bullet by one frame's flight, each with its own drawn
    /// steps.
    pub fn update_bullets(&mut self, screen: &Screen)
        requires
            screen.wf(),
            old(self).wf(*screen),
        ensures
            final(self).wf(*screen),
            final(self).position == old(self).position,
            final(self).rotation == old(self).rotation,
            final(self).has_shield == old(self).has_shield,
            final(self).last_time_shot == old(self).last_time_shot,
            final(self).bullets@.len() == old(self).bullets@.len(),
            forall|i: int|
                0 <= i < old(self).bullets@.len() ==> (#[trigger] final(self).bullets@[i]).updated_from(
                    old(self).bullets@[i],
                    *screen,
                ),
    {
        let n: usize = self.bullets.len();
        let mut i: usize = 0;
        while i < n
            invariant
                screen.wf(),
                i <= n,
                n == self.bullets@.len(),
                n == old(self).bullets@.len(),
                self.position == old(self).position,
                self.rotation == old(self).rotation,
                self.has_shield == old(self).has_shield,
                self.last_time_shot == old(self).last_time_shot,
                self.wf(*screen),
                forall|k: int|
                    0 <= k < i ==> (#[trigger] self.bullets@[k]).updated_from(
                        old(self).bullets@[k],
                        *screen,
                    ),
                forall|k: int| i <= k < n ==> self.bullets@[k] == old(self).bullets@[k],
            decreases n - i,
        {
            let mut b: Bullet = self.bullets[i];
            b.update(screen);
            self.bullets.set(i, b);
            i += 1;
        }
    }

    /// Drops the bullets that have hit something or flown their whole range
    /// at time `now`, and keeps the others in their order.
    pub fn retain_bullets(&mut self, now: u64)
        ensures
            final(self)@ == (ShipView { bullets: live_bullets(old(self)@.bullets, now), ..old(self)@ }),
    {
        let n: usize = self.bullets.len();
        let mut kept: Vec<Bullet> = Vec::new();
        let mut i: usize = 0;
        while i < n
            invariant
                i <= n,
                n == self.bullets@.len(),
                kept@ == live_bullets(self.bullets@.take(i as int), now),
            decreases n - i,
        {
            let b: Bullet = self.bullets[i];
            proof {
                assert(self.bullets@.take(i + 1).drop_last() =~= self.bullets@.take(i as int));
                assert(self.bullets@.take(i + 1).last() == b);
            }
            if !b.expired(now) && !b.collided {
                kept.push(b);
            }
            i += 1;
        }
        proof {
            assert(self.bullets@.take(n as int) =~= self.bullets@);
        }
        self.bullets = kept;
    }
}

} // verus!
