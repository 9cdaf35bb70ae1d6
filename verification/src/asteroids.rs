//! The asteroid shooter: its screens, and what one frame does to the ship,
//! the bullets and the asteroids.

use vstd::prelude::*;
use crate::asteroid::Asteroid;
use crate::collision::{left_by, marked, sweep, sweep_all, lemma_sweep_hits};
use crate::flow::Flow;
use crate::geometry::{Heading, Screen};
use crate::ship::{Bullet, Ship, ShipInput, ShipView, live_bullets, lemma_live_bullets};

verus! {

/// The number of asteroids that a session starts with.
pub const ASTEROID_COUNT: usize = 3;

/// The screen that the shooter shows.
#[derive(Clone, Copy, Debug, PartialEq, Eq, Structural)]
pub enum AsteroidsState {
    Startup,
    Lose,
    Win,
    Paused,
    Running,
}

/// The keys of one frame.
#[derive(Clone, Copy, Debug, PartialEq, Eq, Structural)]
pub struct AsteroidsInput {
    /// The start key was newly pressed.
    pub start: bool,
    /// The start key is held: on the end screens it asks for a new session.
    pub restart: bool,
    /// The pause key was newly pressed. It also leaves the start screen and
    /// ends a pause.
    pub pause: bool,
    /// The quit key was newly pressed.
    pub quit: bool,
    /// The quit key is held.
    pub quit_held: bool,
    pub ship: ShipInput,
}

/// What the caller measures for one frame.
#[derive(Clone, Debug)]
pub struct AsteroidsFrame {
    /// The time, in milliseconds.
    pub now: u64,
    /// The seed for a new session's random draws.
    pub seed: u64,
    /// The direction of the ship's rotation.
    pub ship_heading: Heading,
    /// The direction of each asteroid's rotation, in the asteroids' order.
    pub asteroid_headings: Vec<Heading>,
}

#[derive(Clone, Debug)]
pub struct AsteroidsSession {
    pub screen: Screen,
    pub state: AsteroidsState,
    pub ship: Ship,
    pub asteroids: Vec<Asteroid>,
}

/// Each bullet of `after` is what one frame's flight makes of the bullet at
/// its place in `before`.
pub open spec fn flown(before: Seq<Bullet>, after: Seq<Bullet>, screen: Screen) -> bool {
    &&& after.len() == before.len()
    &&& forall|i: int|
        0 <= i < before.len() ==> (#[trigger] after[i]).updated_from(before[i], screen)
}

/// Each asteroid of `after` is what one frame's drift along its heading makes
/// of the asteroid at its place in `before`.
pub open spec fn drifted(
    before: Seq<Asteroid>,
    headings: Seq<Heading>,
    after: Seq<Asteroid>,
    screen: Screen,
) -> bool {
    &&& after.len() == before.len()
    &&& forall|i: int|
        0 <= i < before.len() ==> (#[trigger] after[i]).moved_from(before[i], headings[i], screen)
}

/// The screen after a frame of play. A touched ship loses, whatever else
/// happened; a cleared field wins; else the pause key pauses.
pub open spec fn spec_verdict(lost: bool, cleared: bool, pause: bool) -> AsteroidsState {
    if lost {
        AsteroidsState::Lose
    } else if cleared {
        AsteroidsState::Win
    } else if pause {
        AsteroidsState::Paused
    } else {
        AsteroidsState::Running
    }
}

impl AsteroidsFrame {
    /// The frame fits the session: every heading is valid, and during play
    /// there is one heading for each asteroid and the ship has room to turn
    /// as the keys ask.
    pub open spec fn fits(self, session: AsteroidsSession, input: AsteroidsInput) -> bool {
        &&& self.ship_heading.wf()
        &&& session.state == AsteroidsState::Running ==> {
            &&& session.ship@.can_turn(input.ship)
            &&& self.asteroid_headings@.len() == session.asteroids@.len()
            &&& forall|i: int|
                0 <= i < self.asteroid_headings@.len() ==> (#[trigger] self.asteroid_headings@[i]).wf()
        }
    }
}

impl AsteroidsSession {
    pub open spec fn wf(self) -> bool {
        &&& self.screen.wf()
        &&& self.ship.wf(self.screen)
        &&& forall|i: int|
            0 <= i < self.asteroids@.len() ==> (#[trigger] self.asteroids@[i]).wf()
                && self.screen.holds(self.asteroids@[i].position)
    }

    /// The session is as a new one is at time `now`: the start screen, a new
    /// ship, and three new asteroids.
    pub open spec fn fresh(self, screen: Screen, now: u64) -> bool {
        &&& self.screen == screen
        &&& self.state == AsteroidsState::Startup
        &&& self.ship@ == Ship::spec_new(screen, now)
        &&& self.asteroids@.len() == ASTEROID_COUNT
        &&& forall|i: int|
            0 <= i < self.asteroids@.len() ==> (#[trigger] self.asteroids@[i]).is_new(screen)
    }

    /// The session is what the hits of one frame make of a ship and a row of
    /// asteroids that have already moved.
    pub open spec fn settled_from(
        self,
        ship: ShipView,
        rocks: Seq<Asteroid>,
        pause: bool,
        now: u64,
    ) -> bool {
        let sw = sweep(rocks, ship.bullets, ship.position);
        &&& left_by(self.asteroids@, sw)
        &&& self.ship@ == (ShipView {
            bullets: live_bullets(marked(ship.bullets, sw.hits), now),
            ..ship
        })
        &&& self.state == spec_verdict(
            sw.ship_touched && !ship.has_shield,
            self.asteroids@.len() == 0,
            pause,
        )
    }

    /// The session is what one frame of play makes of `before`: the keys
    /// steer the ship, the bullets fly, the asteroids drift, and then the hits
    /// are settled.
    pub open spec fn played_from(
        self,
        before: AsteroidsSession,
        input: AsteroidsInput,
        frame: AsteroidsFrame,
    ) -> bool {
        let steered = before.ship@.mv(input.ship, frame.ship_heading, frame.now, before.screen);
        &&& self.screen == before.screen
        &&& exists|bullets: Seq<Bullet>, rocks: Seq<Asteroid>|
            flown(steered.bullets, bullets, before.screen) && drifted(
                before.asteroids@,
                frame.asteroid_headings@,
                rocks,
                before.screen,
            ) && #[trigger] self.settled_from(
                ShipView { bullets, ..steered },
                rocks,
                input.pause,
                frame.now,
            )
    }

    /// A new session on the start screen.
    pub fn new(screen: Screen, now: u64, seed: u64) -> (s: AsteroidsSession)
        requires
            screen.wf(),
        ensures
            s.wf(),
            s.fresh(screen, now),
    {
        let ship = Ship::new(&screen, now, seed);
        let mut asteroids: Vec<Asteroid> = Vec::new();
        let mut i: usize = 0;
        while i < ASTEROID_COUNT
            invariant
                screen.wf(),
                i <= ASTEROID_COUNT,
                asteroids@.len() == i,
                forall|k: int|
                    0 <= k < asteroids@.len() ==> (#[trigger] asteroids@[k]).wf() && screen.holds(
                        asteroids@[k].position,
                    ) && asteroids@[k].is_new(screen),
            decreases ASTEROID_COUNT - i,
        {
            asteroids.push(Asteroid::new(&screen));
            i += 1;
        }
        AsteroidsSession { screen, state: AsteroidsState::Startup, ship, asteroids }
    }

    /// Tells whether `frame` fits the session and the keys, which
    /// [`AsteroidsSession::step`] asks of its caller.
    pub fn accepts(&self, input: &AsteroidsInput, frame: &AsteroidsFrame) -> (r: bool)
        ensures
            r == frame.fits(*self, *input),
    {
        let h = frame.ship_heading;
        if !(-1_000 <= h.sin && h.sin <= 1_000 && -1_000 <= h.cos && h.cos <= 1_000) {
            return false;
        }
        match self.state {
            AsteroidsState::Running => {},
            _ => {
                return true;
            },
        }
        if !self.ship.can_turn(&input.ship) {
            return false;
        }
        let n: usize = frame.asteroid_headings.len();
        if n != self.asteroids.len() {
            return false;
        }
        let mut i: usize = 0;
        while i < n
            invariant
                i <= n,
                n == frame.asteroid_headings@.len(),
                n == self.asteroids@.len(),
                self.state == AsteroidsState::Running,
                self.ship@.can_turn(input.ship),
                frame.ship_heading.wf(),
                forall|k: int| 0 <= k < i ==> (#[trigger] frame.asteroid_headings@[k]).wf(),
            decreases n - i,
        {
            let g = frame.asteroid_headings[i];
            if !(-1_000 <= g.sin && g.sin <= 1_000 && -1_000 <= g.cos && g.cos <= 1_000) {
                assert(!frame.asteroid_headings@[i as int].wf());
                return false;
            }
            i += 1;
        }
        true
    }

    /// Moves every asteroid by one frame's drift along its heading, each at a
    /// speed drawn for its class.
    pub fn drift_asteroids(&mut self, headings: &Vec<Heading>)
        requires
            old(self).wf(),
            headings@.len() == old(self).asteroids@.len(),
            forall|i: int| 0 <= i < headings@.len() ==> (#[trigger] headings@[i]).wf(),
        ensures
            final(self).wf(),
            final(self).screen == old(self).screen,
            final(self).state == old(self).state,
            final(self).ship == old(self).ship,
            drifted(old(self).asteroids@, headings@, final(self).asteroids@, old(self).screen),
    {
        let n: usize = self.asteroids.len();
        let mut i: usize = 0;
        while i < n
            invariant
                i <= n,
                n == self.asteroids@.len(),
                n == old(self).asteroids@.len(),
                n == headings@.len(),
                forall|k: int| 0 <= k < headings@.len() ==> (#[trigger] headings@[k]).wf(),
                self.wf(),
                self.screen == old(self).screen,
                self.state == old(self).state,
                self.ship == old(self).ship,
                forall|k: int|
                    0 <= k < i ==> (#[trigger] self.asteroids@[k]).moved_from(
                        old(self).asteroids@[k],
                        headings@[k],
                        old(self).screen,
                    ),
                forall|k: int| i <= k < n ==> self.asteroids@[k] == old(self).asteroids@[k],
            decreases n - i,
        {
            let mut a: Asteroid = self.asteroids[i];
            let ghost before = a;
            a.mv(headings[i], &self.screen);
            proof {
                let speed = choose|speed: i64|
                    a == #[trigger] before.spec_mv(headings@[i as int], speed, self.screen);
                assert(a@.splits_left == before@.splits_left);
                assert(a.wf());
            }
            self.asteroids.set(i, a);
            i += 1;
        }
    }

    /// Settles one frame's hits between the bullets and the asteroids: marks
    /// the bullets that hit, splits or removes the asteroids that were hit,
    /// and tells whether an asteroid reaches the ship.
    pub fn resolve_collisions(&mut self) -> (touched: bool)
        requires
            old(self).wf(),
        ensures
            final(self).wf(),
            final(self).screen == old(self).screen,
            final(self).state == old(self).state,
            ({
                let sw = sweep(
                    old(self).asteroids@,
                    old(self).ship@.bullets,
                    old(self).ship.position,
                );
                &&& left_by(final(self).asteroids@, sw)
                &&& final(self).ship@ == (ShipView {
                    bullets: marked(old(self).ship@.bullets, sw.hits),
                    ..old(self).ship@
                })
                &&& touched == sw.ship_touched
            }),
    {
        proof {
            lemma_sweep_hits(self.asteroids@, self.ship@.bullets, self.ship.position);
        }
        let (marks, touched) = sweep_all(
            &mut self.asteroids,
            &self.ship.bullets,
            &self.ship.position,
            &self.screen,
        );
        let ghost rocks = self.asteroids@;
        let n: usize = self.ship.bullets.len();
        let mut i: usize = 0;
        while i < n
            invariant
                i <= n,
                n == self.ship.bullets@.len(),
                n == old(self).ship.bullets@.len(),
                n == marks@.len(),
                self.asteroids@ == rocks,
                self.screen == old(self).screen,
                self.state == old(self).state,
                self.ship.position == old(self).ship.position,
                self.ship.rotation == old(self).ship.rotation,
                self.ship.has_shield == old(self).ship.has_shield,
                self.ship.last_time_shot == old(self).ship.last_time_shot,
                self.wf(),
                forall|k: int|
                    0 <= k < i ==> self.ship.bullets@[k] == marked(
                        old(self).ship@.bullets,
                        marks@,
                    )[k],
                forall|k: int| i <= k < n ==> self.ship.bullets@[k] == old(self).ship.bullets@[k],
            decreases n - i,
        {
            if marks[i] {
                let mut b: Bullet = self.ship.bullets[i];
                b.collided = true;
                self.ship.bullets.set(i, b);
            }
            i += 1;
        }
        proof {
            assert(self.ship.bullets@ =~= marked(old(self).ship@.bullets, marks@));
        }
        touched
    }

    /// Runs one frame. On the start screen the pause key leaves and the start
    /// key begins play after a countdown. During a pause the quit key leaves
    /// and the pause key resumes play after a countdown. On the end screens
    /// the held start key makes a new session and the held quit key leaves.
    /// During play the frame is played as [`AsteroidsSession::played_from`]
    /// says.
    pub fn step(&mut self, input: &AsteroidsInput, frame: &AsteroidsFrame) -> (flow: Flow)
        requires
            old(self).wf(),
            frame.fits(*old(self), *input),
        ensures
            final(self).wf(),
            final(self).screen == old(self).screen,
            old(self).state == AsteroidsState::Startup ==> {
                &&& final(self).ship == old(self).ship
                &&& final(self).asteroids == old(self).asteroids
                &&& final(self).state == if !input.pause && input.start {
                    AsteroidsState::Running
                } else {
                    AsteroidsState::Startup
                }
                &&& flow == if input.pause {
                    Flow::Leave
                } else if input.start {
                    Flow::Countdown
                } else {
                    Flow::Next
                }
            },
            old(self).state == AsteroidsState::Paused ==> {
                &&& final(self).ship == old(self).ship
                &&& final(self).asteroids == old(self).asteroids
                &&& final(self).state == if !input.quit && input.pause {
                    AsteroidsState::Running
                } else {
                    AsteroidsState::Paused
                }
                &&& flow == if input.quit {
                    Flow::Leave
                } else if input.pause {
                    Flow::Countdown
                } else {
                    Flow::Next
                }
            },
            old(self).state == AsteroidsState::Win || old(self).state == AsteroidsState::Lose ==> {
                &&& input.restart ==> final(self).fresh(old(self).screen, frame.now)
                &&& !input.restart ==> *final(self) == *old(self)
                &&& flow == if input.quit_held {
                    Flow::Leave
                } else {
                    Flow::Next
                }
            },
            old(self).state == AsteroidsState::Running ==> {
                &&& final(self).played_from(*old(self), *input, *frame)
                &&& flow == Flow::Next
            },
    {
        match self.state {
            AsteroidsState::Startup => {
                if input.pause {
                    Flow::Leave
                } else if input.start {
                    self.state = AsteroidsState::Running;
                    Flow::Countdown
                } else {
                    Flow::Next
                }
            },
            AsteroidsState::Paused => {
                if input.quit {
                    Flow::Leave
                } else if input.pause {
                    self.state = AsteroidsState::Running;
                    Flow::Countdown
                } else {
                    Flow::Next
                }
            },
            AsteroidsState::Win | AsteroidsState::Lose => {
                if input.restart {
                    *self = AsteroidsSession::new(self.screen, frame.now, frame.seed);
                }
                if input.quit_held {
                    Flow::Leave
                } else {
                    Flow::Next
                }
            },
            AsteroidsState::Running => {
                self.play(input, frame);
                Flow::Next
            },
        }
    }

    /// Plays one frame of the running game.
    pub fn play(&mut self, input: &AsteroidsInput, frame: &AsteroidsFrame)
        requires
            old(self).wf(),
            old(self).ship@.can_turn(input.ship),
            frame.ship_heading.wf(),
            frame.asteroid_headings@.len() == old(self).asteroids@.len(),
            forall|i: int|
                0 <= i < frame.asteroid_headings@.len() ==> (#[trigger] frame.asteroid_headings@[i]).wf(),
        ensures
            final(self).wf(),
            final(self).played_from(*old(self), *input, *frame),
    {
        let ghost steered = self.ship@.mv(input.ship, frame.ship_heading, frame.now, self.screen);
        self.ship.mv(&input.ship, frame.ship_heading, frame.now, &self.screen);
        self.ship.update_bullets(&self.screen);
        self.drift_asteroids(&frame.asteroid_headings);
        let ghost flew = self.ship@;
        let ghost rocks = self.asteroids@;
        let touched: bool = self.resolve_collisions();
        let ghost hit = self.ship@.bullets;
        self.ship.retain_bullets(frame.now);
        let lost: bool = touched && !self.ship.has_shield;
        self.state = if lost {
            AsteroidsState::Lose
        } else if self.asteroids.len() == 0 {
            AsteroidsState::Win
        } else if input.pause {
            AsteroidsState::Paused
        } else {
            AsteroidsState::Running
        };
        proof {
            lemma_live_bullets(hit, frame.now);
            assert forall|i: int| 0 <= i < self.ship.bullets@.len() implies (
            #[trigger] self.ship.bullets@[i]).wf() by {
                let b = self.ship.bullets@[i];
                assert(hit.contains(b));
                let k = choose|k: int| 0 <= k < hit.len() && hit[k] == b;
                assert(flew.bullets[k].wf());
            }
            assert(flew == (ShipView { bullets: flew.bullets, ..steered }));
            assert(flown(steered.bullets, flew.bullets, old(self).screen));
            assert(self.settled_from(
                ShipView { bullets: flew.bullets, ..steered },
                rocks,
                input.pause,
                frame.now,
            ));
        }
    }
}

} // verus!
