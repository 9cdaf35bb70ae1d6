//! The side-scroller: its screens, and what one frame does to the bird, the
//! pipes, the score and the trophy.

use vstd::prelude::*;
use crate::bird::{Bird, MAX_SPEED};
use crate::flow::Flow;
use crate::geometry::{
    Screen, Vector2, COORD_LIMIT, SCREEN_MAX, UNIT, dist_sq, is_near_rect, near_rect,
    nearest_in_rect,
};
use crate::rng::draw_below;

verus! {

/// The score at which the trophy comes.
pub const WIN_SCORE: u32 = 4;

pub const PIPE_WIDTH: i64 = 100_000;

pub const PIPE_HEIGHT: i64 = 300_000;

/// Where the upper pipe of a pair starts.
pub const PIPE_START_Y: i64 = -160_000;

/// How far behind the first pair the second pair starts.
pub const PAIR_SPACING: i64 = 250_000;

/// What is taken from a new pair's height besides its drawn offset.
pub const PIPE_DROP: i64 = 30_000;

/// How far an easing pair moves in one frame.
pub const EASE_RATE: i64 = 500;

/// The second pair eases down while its lower pipe is more than this above the
/// bottom of the screen.
pub const EASE_DOWN_MARGIN: i64 = 10_000;

/// The first pair eases up while its upper pipe is more than this below the
/// screen's height above the top.
pub const EASE_UP_MARGIN: i64 = 190_000;

/// How far the pipes scroll in one frame at the start.
pub const BASE_SPEED: i64 = 1_500;

/// What every tenth point adds to the scroll.
pub const SPEED_STEP: i64 = 500;

/// The number of points between two such additions.
pub const TIER_SIZE: u32 = 10;

/// The fastest scroll that a session keeps.
pub const SPEED_LIMIT: i64 = 1_000_000_000;

/// How far the trophy scrolls in one frame.
pub const TROPHY_SPEED: i64 = 800;

pub const TROPHY_WIDTH: i64 = 50_000;

pub const TROPHY_HEIGHT: i64 = 160_000;

/// The bird touches what is closer to it than this.
pub const REACH: i64 = 40_000;

/// A pair is renewed once a pipe is this far behind the bird.
pub const RECYCLE_LAG: i64 = 80_000;


#[derive(Clone, Copy, Debug, PartialEq, Eq, Structural)]
pub struct Pipe {
    pub x: i64,
    pub y: i64,
    pub w: i64,
    pub h: i64,
}

#[derive(Clone, Copy, Debug, PartialEq, Eq, Structural)]
pub struct Trophy {
    pub x: i64,
    pub y: i64,
    pub w: i64,
    pub h: i64,
}

/// An upper pipe and the lower pipe below it.
#[derive(Clone, Copy, Debug, PartialEq, Eq, Structural)]
pub struct PipePair {
    pub top: Pipe,
    pub bottom: Pipe,
}

/// The screen that the side-scroller shows.
#[derive(Clone, Copy, Debug, PartialEq, Eq, Structural)]
pub enum FlappyState {
    Startup,
    Lose,
    Win,
    Paused,
    Running,
}

/// The keys of one frame.
#[derive(Clone, Copy, Debug, PartialEq, Eq, Structural)]
pub struct FlappyInput {
    /// The jump key was newly pressed. On the start screen it begins play.
    pub jump: bool,
    /// The restart key is held.
    pub restart: bool,
    /// The pause key was newly pressed. It also leaves the start screen and
    /// ends a pause.
    pub pause: bool,
    /// The quit key was newly pressed.
    pub quit: bool,
    /// The quit key is held.
    pub quit_held: bool,
}

#[derive(Clone, Copy, Debug, PartialEq, Eq, Structural)]
pub struct FlappySession {
    pub screen: Screen,
    pub state: FlappyState,
    pub bird: Bird,
    pub first: PipePair,
    pub second: PipePair,
    pub trophy: Trophy,
    /// Counts the renewed pairs up to [`TIER_SIZE`]; its parity picks the pair
    /// to renew.
    pub counter: u32,
    pub score: u32,
    /// How far the pipes scroll in one frame.
    pub speed: i64,
}

/// A coordinate after a scroll of `by` to the left, which stops at the
/// coordinate limit.
pub open spec fn spec_scroll(x: i64, by: i64) -> i64 {
    if x - by < -COORD_LIMIT {
        (-COORD_LIMIT) as i64
    } else {
        (x - by) as i64
    }
}

/// The counter and the scroll speed after one more point: every tenth point
/// makes the scroll faster and starts the counter again.
pub open spec fn spec_tally(counter: u32, speed: i64) -> (u32, i64) {
    if counter + 1 == TIER_SIZE {
        (0u32, (speed + SPEED_STEP) as i64)
    } else {
        ((counter + 1) as u32, speed)
    }
}

/// The bound below which the offset of a new pair is drawn, in whole units:
/// the offset is at most half the screen's height.
pub open spec fn spec_gap_bound(screen: Screen) -> i64 {
    ((screen.height / UNIT) / 2 + 1) as i64
}

/// The point lies above or below the screen.
pub open spec fn spec_death_screen(v: Vector2, screen: Screen) -> bool {
    v.y > screen.height || v.y < 0
}

impl Pipe {
    /// The corner, the width and the height are within the coordinate limit.
    pub open spec fn in_range(self) -> bool {
        &&& -COORD_LIMIT <= self.x <= COORD_LIMIT
        &&& -COORD_LIMIT <= self.y <= COORD_LIMIT
        &&& -COORD_LIMIT <= self.w <= COORD_LIMIT
        &&& -COORD_LIMIT <= self.h <= COORD_LIMIT
    }

    /// The pipe is in range and has the size of a session's pipes.
    pub open spec fn wf(self) -> bool {
        &&& self.in_range()
        &&& self.w == PIPE_WIDTH
        &&& self.h == PIPE_HEIGHT
    }

    /// The bird is within reach of the pipe.
    pub open spec fn kills(self, bird: Bird) -> bool {
        near_rect(bird.pos, self.x, self.y, self.w, self.h, REACH as int)
    }

    pub open spec fn scrolled(self, by: i64) -> Pipe {
        Pipe { x: spec_scroll(self.x, by), ..self }
    }

    pub open spec fn lifted(self, by: i64) -> Pipe {
        Pipe { y: (self.y + by) as i64, ..self }
    }
}

impl Trophy {
    /// The corner, the width and the height are within the coordinate limit.
    pub open spec fn in_range(self) -> bool {
        &&& -COORD_LIMIT <= self.x <= COORD_LIMIT
        &&& -COORD_LIMIT <= self.y <= COORD_LIMIT
        &&& -COORD_LIMIT <= self.w <= COORD_LIMIT
        &&& -COORD_LIMIT <= self.h <= COORD_LIMIT
    }

    /// The trophy is in range and has the size of a session's trophy.
    pub open spec fn wf(self) -> bool {
        &&& self.in_range()
        &&& self.w == TROPHY_WIDTH
        &&& self.h == TROPHY_HEIGHT
    }

    /// The bird is within reach of the trophy.
    pub open spec fn reached(self, bird: Bird) -> bool {
        near_rect(bird.pos, self.x, self.y, self.w, self.h, REACH as int)
    }
}

impl PipePair {
    pub open spec fn wf(self, screen: Screen) -> bool {
        &&& self.top.wf()
        &&& self.bottom.wf()
        &&& self.bottom.y == self.top.y + screen.height
        &&& -2 * SCREEN_MAX <= self.top.y <= SCREEN_MAX
    }

    /// The pair at `x` whose upper pipe starts at `y`; the lower pipe starts
    /// one screen's height below.
    pub open spec fn spec_at(x: i64, y: i64, screen: Screen) -> PipePair {
        PipePair {
            top: Pipe { x, y, w: PIPE_WIDTH, h: PIPE_HEIGHT },
            bottom: Pipe { x, y: (y + screen.height) as i64, w: PIPE_WIDTH, h: PIPE_HEIGHT },
        }
    }

    /// The pair that comes in at the right edge for the drawn offset `valor`,
    /// given in whole units.
    pub open spec fn spec_renewed(valor: i64, screen: Screen) -> PipePair {
        PipePair::spec_at(screen.width, (-valor * UNIT - PIPE_DROP) as i64, screen)
    }

    pub open spec fn scrolled(self, by: i64) -> PipePair {
        PipePair { top: self.top.scrolled(by), bottom: self.bottom.scrolled(by) }
    }

    pub open spec fn lifted(self, by: i64) -> PipePair {
        PipePair { top: self.top.lifted(by), bottom: self.bottom.lifted(by) }
    }

    /// A pipe of the pair is more than the lag behind the bird.
    pub open spec fn behind(self, bird: Bird) -> bool {
        self.top.x < bird.pos.x - RECYCLE_LAG || self.bottom.x < bird.pos.x - RECYCLE_LAG
    }

    pub open spec fn kills(self, bird: Bird) -> bool {
        self.top.kills(bird) || self.bottom.kills(bird)
    }

    fn at(x: i64, y: i64, screen: &Screen) -> (p: PipePair)
        requires
            screen.wf(),
            -COORD_LIMIT <= x <= COORD_LIMIT,
            -2 * SCREEN_MAX <= y <= SCREEN_MAX,
        ensures
            p == PipePair::spec_at(x, y, *screen),
            p.wf(*screen),
    {
        PipePair {
            top: Pipe { x, y, w: PIPE_WIDTH, h: PIPE_HEIGHT },
            bottom: Pipe { x, y: y + screen.height, w: PIPE_WIDTH, h: PIPE_HEIGHT },
        }
    }
}

/// A bird beside a pipe, level with it and `gap` to its left, is within reach
/// of it exactly when `gap` is less than forty units: at forty units it is
/// not.
pub proof fn lemma_reach_beside_pipe(bird: Bird, p: Pipe, gap: int)
    requires
        p.in_range(),
        p.w >= 0,
        0 <= gap,
        bird.pos.x == p.x - gap,
        p.y <= bird.pos.y <= p.y + p.h,
    ensures
        p.kills(bird) <==> gap < REACH,
{
    let r = REACH as int;
    assert(gap < r <==> gap * gap < r * r) by (nonlinear_arith)
        requires
            0 <= gap,
            0 < r,
    ;
    let n = nearest_in_rect(bird.pos, p.x, p.y, p.w, p.h);
    assert(n.x == p.x);
    assert(n.y == bird.pos.y);
    assert(dist_sq(bird.pos, n) == gap * gap) by (nonlinear_arith)
        requires
            bird.pos.x - n.x == -gap,
            bird.pos.y - n.y == 0,
            dist_sq(bird.pos, n) == (bird.pos.x - n.x) * (bird.pos.x - n.x) + (bird.pos.y - n.y)
                * (bird.pos.y - n.y),
    ;
}

/// The verdict of a frame: lost exactly when the bird is within reach of a
/// pipe or off the screen, and won exactly when it is not lost, the winning
/// score is reached and the bird is within reach of the scrolled trophy.
pub proof fn lemma_verdict(s: FlappySession, pause: bool)
    ensures
        s.spec_judged(pause).state == FlappyState::Lose <==> s.spec_lost(),
        s.spec_judged(pause).state == FlappyState::Win <==> !s.spec_lost() && s.score >= WIN_SCORE
            && s.spec_judged(pause).trophy.reached(s.bird),
        s.spec_judged(pause).state == FlappyState::Paused ==> pause,
        s.spec_judged(pause).state != FlappyState::Startup,
{
}

/// Scrolls a coordinate to the left.
fn scroll(x: i64, by: i64) -> (r: i64)
    requires
        -COORD_LIMIT <= x <= COORD_LIMIT,
        0 <= by <= SPEED_LIMIT,
    ensures
        r == spec_scroll(x, by),
        -COORD_LIMIT <= r <= x,
{
    if x - by < -COORD_LIMIT {
        -COORD_LIMIT
    } else {
        x - by
    }
}

/// Counts one more point.
pub fn tally(counter: u32, speed: i64) -> (r: (u32, i64))
    requires
        counter < TIER_SIZE,
        0 <= speed <= SPEED_LIMIT,
    ensures
        r == spec_tally(counter, speed),
{
    if counter + 1 == TIER_SIZE {
        (0, speed + SPEED_STEP)
    } else {
        (counter + 1, speed)
    }
}

/// Tells whether the point lies above or below the screen.
pub fn death_screen(v: &Vector2, screen: &Screen) -> (dead: bool)
    ensures
        dead == spec_death_screen(*v, *screen),
{
    v.y > screen.height || v.y < 0
}

/// Tells whether the bird is within reach of the pipe: whether the point of
/// the pipe nearest to it is less than forty units away.
pub fn death_pipe(bird: &Bird, p: &Pipe) -> (dead: bool)
    requires
        p.in_range(),
    ensures
        dead == p.kills(*bird),
{
    is_near_rect(bird.pos, p.x, p.y, p.w, p.h, REACH)
}

/// Tells whether the bird is within reach of the trophy.
pub fn hit_trophy(bird: &Bird, p: &Trophy) -> (won: bool)
    requires
        p.in_range(),
    ensures
        won == p.reached(*bird),
{
    is_near_rect(bird.pos, p.x, p.y, p.w, p.h, REACH)
}

impl FlappySession {
    /// Everything is within its limits: the bird moves up and down only and
    /// is at most one frame's flight off the screen, each lower pipe lies one
    /// screen's height below its upper pipe, and the counter has not passed
    /// the score, nor the score the goal.
    pub open spec fn sound(self) -> bool {
        &&& self.screen.wf()
        &&& self.bird.vel.x == 0
        &&& -MAX_SPEED <= self.bird.vel.y <= MAX_SPEED
        &&& 0 <= self.bird.pos.x <= self.screen.width
        &&& -MAX_SPEED <= self.bird.pos.y <= self.screen.height + MAX_SPEED
        &&& self.first.wf(self.screen)
        &&& self.second.wf(self.screen)
        &&& self.trophy.wf()
        &&& self.score <= WIN_SCORE
        &&& self.counter <= self.score
        &&& 0 <= self.speed <= SPEED_LIMIT
    }

    /// The bird is on the screen.
    pub open spec fn bird_on_screen(self) -> bool {
        0 <= self.bird.pos.y <= self.screen.height
    }

    /// The session is sound, and the bird is on the screen on every screen
    /// but the two end screens.
    pub open spec fn wf(self) -> bool {
        &&& self.sound()
        &&& self.state != FlappyState::Win && self.state != FlappyState::Lose
            ==> self.bird_on_screen()
    }

    /// The session can be played: it is sound and the bird is on the screen.
    pub open spec fn in_play(self) -> bool {
        self.sound() && self.bird_on_screen()
    }

    /// The session that play starts from: the bird at rest in the middle, the
    /// first pair at the right edge and the second behind it, the trophy at
    /// the right edge, and no points.
    pub open spec fn spec_new(screen: Screen) -> FlappySession {
        FlappySession {
            screen,
            state: FlappyState::Startup,
            bird: Bird { pos: screen.spec_center(), vel: Vector2 { x: 0, y: 0 } },
            first: PipePair::spec_at(screen.width, PIPE_START_Y, screen),
            second: PipePair::spec_at((screen.width + PAIR_SPACING) as i64, PIPE_START_Y, screen),
            trophy: Trophy {
                x: screen.width,
                y: (screen.height / 2 - TROPHY_HEIGHT / 2) as i64,
                w: TROPHY_WIDTH,
                h: TROPHY_HEIGHT,
            },
            counter: 0,
            score: 0,
            speed: BASE_SPEED,
        }
    }

    /// The pairs after one frame's easing. Past half the winning score the
    /// second pair moves down until its lower pipe nears the bottom; past
    /// three quarters of it the first pair moves up until its upper pipe is
    /// high enough.
    pub open spec fn spec_eased(self) -> FlappySession {
        FlappySession {
            second: if self.score > WIN_SCORE / 2 && self.second.bottom.y < self.screen.height
                - EASE_DOWN_MARGIN {
                self.second.lifted(EASE_RATE)
            } else {
                self.second
            },
            first: if self.score > (WIN_SCORE * 3) / 4 && self.first.top.y > -self.screen.height
                + EASE_UP_MARGIN {
                self.first.lifted((-EASE_RATE) as i64)
            } else {
                self.first
            },
            ..self
        }
    }

    /// The session after the bird has flown for one frame, the pairs have
    /// eased, and every pipe has scrolled.
    pub open spec fn spec_advanced(self, jump: bool) -> FlappySession {
        let eased = self.spec_eased();
        FlappySession {
            bird: self.bird.spec_fly(jump),
            first: eased.first.scrolled(self.speed),
            second: eased.second.scrolled(self.speed),
            ..self
        }
    }

    /// A pair is to be renewed: a pipe is far enough behind the bird, and the
    /// winning score is not yet reached.
    pub open spec fn spec_recycle_due(self) -> bool {
        (self.first.behind(self.bird) || self.second.behind(self.bird)) && self.score < WIN_SCORE
    }

    /// The session after a pair was renewed with the drawn offset `valor`:
    /// the first pair where the counter is even, else the second; one more
    /// point; and the counter and the speed after it.
    pub open spec fn spec_recycled(self, valor: i64) -> FlappySession {
        let renewed = PipePair::spec_renewed(valor, self.screen);
        let after = spec_tally(self.counter, self.speed);
        FlappySession {
            first: if self.counter % 2 == 0 {
                renewed
            } else {
                self.first
            },
            second: if self.counter % 2 == 0 {
                self.second
            } else {
                renewed
            },
            counter: after.0,
            score: (self.score + 1) as u32,
            speed: after.1,
            ..self
        }
    }

    /// The bird is within reach of a pipe or has left the screen.
    pub open spec fn spec_lost(self) -> bool {
        spec_death_screen(self.bird.pos, self.screen) || self.first.kills(self.bird)
            || self.second.kills(self.bird)
    }

    /// The session after the frame's verdict. From the winning score on the
    /// trophy scrolls, and reaching it wins. Losing comes before winning, and
    /// both before a pause.
    pub open spec fn spec_judged(self, pause: bool) -> FlappySession {
        let trophy = if self.score >= WIN_SCORE {
            Trophy { x: spec_scroll(self.trophy.x, TROPHY_SPEED), ..self.trophy }
        } else {
            self.trophy
        };
        FlappySession {
            trophy,
            state: if self.spec_lost() {
                FlappyState::Lose
            } else if self.score >= WIN_SCORE && trophy.reached(self.bird) {
                FlappyState::Win
            } else if pause {
                FlappyState::Paused
            } else {
                FlappyState::Running
            },
            ..self
        }
    }

    /// The session after one frame of play in which a renewed pair, if one is
    /// due, gets the offset `valor`.
    pub open spec fn spec_played(self, jump: bool, pause: bool, valor: i64) -> FlappySession {
        let advanced = self.spec_advanced(jump);
        let renewed = if advanced.spec_recycle_due() {
            advanced.spec_recycled(valor)
        } else {
            advanced
        };
        renewed.spec_judged(pause)
    }

    /// A new session on the start screen.
    pub fn new(screen: Screen) -> (s: FlappySession)
        requires
            screen.wf(),
        ensures
            s == FlappySession::spec_new(screen),
            s.wf(),
    {
        FlappySession {
            screen,
            state: FlappyState::Startup,
            bird: Bird { pos: screen.center(), vel: Vector2 { x: 0, y: 0 } },
            first: PipePair::at(screen.width, PIPE_START_Y, &screen),
            second: PipePair::at(screen.width + PAIR_SPACING, PIPE_START_Y, &screen),
            trophy: Trophy {
                x: screen.width,
                y: screen.height / 2 - TROPHY_HEIGHT / 2,
                w: TROPHY_WIDTH,
                h: TROPHY_HEIGHT,
            },
            counter: 0,
            score: 0,
            speed: BASE_SPEED,
        }
    }

    /// The bound below which the offset of a new pair is drawn.
    pub fn gap_bound(&self) -> (bound: i64)
        requires
            self.screen.wf(),
        ensures
            bound == spec_gap_bound(self.screen),
            bound > 0,
    {
        (self.screen.height / UNIT) / 2 + 1
    }

    /// Lets the bird fly for one frame, eases the pairs and scrolls every
    /// pipe.
    pub fn advance(&mut self, jump: bool)
        requires
            old(self).in_play(),
        ensures
            *final(self) == old(self).spec_advanced(jump),
            final(self).sound(),
    {
        let height: i64 = self.screen.height;
        if self.score > WIN_SCORE / 2 && self.second.bottom.y < height - EASE_DOWN_MARGIN {
            self.second.top.y = self.second.top.y + EASE_RATE;
            self.second.bottom.y = self.second.bottom.y + EASE_RATE;
        }
        if self.score > (WIN_SCORE * 3) / 4 && self.first.top.y > -height + EASE_UP_MARGIN {
            self.first.top.y = self.first.top.y - EASE_RATE;
            self.first.bottom.y = self.first.bottom.y - EASE_RATE;
        }
        self.bird.fly(jump);
        self.first.top.x = scroll(self.first.top.x, self.speed);
        self.first.bottom.x = scroll(self.first.bottom.x, self.speed);
        self.second.top.x = scroll(self.second.top.x, self.speed);
        self.second.bottom.x = scroll(self.second.bottom.x, self.speed);
    }

    /// Tells whether a pair is to be renewed.
    pub fn recycle_due(&self) -> (due: bool)
        requires
            self.sound(),
        ensures
            due == self.spec_recycle_due(),
    {
        let mark: i64 = self.bird.pos.x - RECYCLE_LAG;
        (self.first.top.x < mark || self.first.bottom.x < mark || self.second.top.x < mark
            || self.second.bottom.x < mark) && self.score < WIN_SCORE
    }

    /// Renews a pair with the offset `valor` and counts a point.
    pub fn recycle_with(&mut self, valor: i64)
        requires
            old(self).sound(),
            old(self).score < WIN_SCORE,
            0 <= valor < spec_gap_bound(old(self).screen),
        ensures
            *final(self) == old(self).spec_recycled(valor),
            final(self).sound(),
    {
        let renewed = PipePair::at(self.screen.width, -valor * UNIT - PIPE_DROP, &self.screen);
        if self.counter % 2 == 0 {
            self.first = renewed;
        } else {
            self.second = renewed;
        }
        let after = tally(self.counter, self.speed);
        self.counter = after.0;
        self.speed = after.1;
        self.score = self.score + 1;
    }

    /// Scrolls the trophy once the winning score is reached, and settles
    /// which screen comes next.
    pub fn judge(&mut self, pause: bool)
        requires
            old(self).sound(),
        ensures
            *final(self) == old(self).spec_judged(pause),
            final(self).wf(),
    {
        let mut won: bool = false;
        if self.score >= WIN_SCORE {
            self.trophy.x = scroll(self.trophy.x, TROPHY_SPEED);
            won = hit_trophy(&self.bird, &self.trophy);
        }
        let lost: bool = death_screen(&self.bird.pos, &self.screen) || death_pipe(
            &self.bird,
            &self.first.top,
        ) || death_pipe(&self.bird, &self.first.bottom) || death_pipe(
            &self.bird,
            &self.second.top,
        ) || death_pipe(&self.bird, &self.second.bottom);
        self.state = if lost {
            FlappyState::Lose
        } else if won {
            FlappyState::Win
        } else if pause {
            FlappyState::Paused
        } else {
            FlappyState::Running
        };
    }

    /// Plays one frame in which a renewed pair, if one is due, gets the
    /// offset `valor`.
    pub fn play_with(&mut self, jump: bool, pause: bool, valor: i64)
        requires
            old(self).in_play(),
            0 <= valor < spec_gap_bound(old(self).screen),
        ensures
            *final(self) == old(self).spec_played(jump, pause, valor),
            final(self).wf(),
    {
        self.advance(jump);
        if self.recycle_due() {
            self.recycle_with(valor);
        }
        self.judge(pause);
    }

    /// Plays one frame. The offset of a renewed pair is drawn.
    pub fn play(&mut self, jump: bool, pause: bool)
        requires
            old(self).in_play(),
        ensures
            exists|valor: i64|
                0 <= valor < spec_gap_bound(old(self).screen) && *final(self)
                    == #[trigger] old(self).spec_played(jump, pause, valor),
            final(self).wf(),
    {
        self.advance(jump);
        let ghost mut valor: i64 = 0;
        if self.recycle_due() {
            let drawn: i64 = draw_below(0, self.gap_bound());
            proof {
                valor = drawn;
            }
            self.recycle_with(drawn);
        }
        self.judge(pause);
        proof {
            assert(*final(self) == old(self).spec_played(jump, pause, valor));
        }
    }

    /// Runs one frame. On the start screen the pause key leaves and the jump
    /// key begins play after a countdown. During a pause the quit key leaves
    /// and the pause key resumes play after a countdown. On the end screens
    /// the held restart key makes a new session and the held quit key leaves.
    /// During play the frame is played as [`FlappySession::spec_played`] says,
    /// for some drawn offset.
    pub fn step(&mut self, input: &FlappyInput) -> (flow: Flow)
        requires
            old(self).wf(),
        ensures
            final(self).wf(),
            old(self).state == FlappyState::Startup ==> {
                &&& *final(self) == (FlappySession {
                    state: if !input.pause && input.jump {
                        FlappyState::Running
                    } else {
                        FlappyState::Startup
                    },
                    ..*old(self)
                })
                &&& flow == if input.pause {
                    Flow::Leave
                } else if input.jump {
                    Flow::Countdown
                } else {
                    Flow::Next
                }
            },
            old(self).state == FlappyState::Paused ==> {
                &&& *final(self) == (FlappySession {
                    state: if !input.quit && input.pause {
                        FlappyState::Running
                    } else {
                        FlappyState::Paused
                    },
                    ..*old(self)
                })
                &&& flow == if input.quit {
                    Flow::Leave
                } else if input.pause {
                    Flow::Countdown
                } else {
                    Flow::Next
                }
            },
            old(self).state == FlappyState::Win || old(self).state == FlappyState::Lose ==> {
                &&& *final(self) == if input.restart {
                    FlappySession::spec_new(old(self).screen)
                } else {
                    *old(self)
                }
                &&& flow == if input.quit_held {
                    Flow::Leave
                } else {
                    Flow::Next
                }
            },
            old(self).state == FlappyState::Running ==> {
                &&& exists|valor: i64|
                    0 <= valor < spec_gap_bound(old(self).screen) && *final(self)
                        == #[trigger] old(self).spec_played(input.jump, input.pause, valor)
                &&& flow == Flow::Next
            },
    {
        match self.state {
            FlappyState::Startup => {
                if input.pause {
                    Flow::Leave
                } else if input.jump {
                    self.state = FlappyState::Running;
                    Flow::Countdown
                } else {
                    Flow::Next
                }
            },
            FlappyState::Paused => {
                if input.quit {
                    Flow::Leave
                } else if input.pause {
                    self.state = FlappyState::Running;
                    Flow::Countdown
                } else {
                    Flow::Next
                }
            },
            FlappyState::Win | FlappyState::Lose => {
                if input.restart {
                    *self = FlappySession::new(self.screen);
                }
                if input.quit_held {
                    Flow::Leave
                } else {
                    Flow::Next
                }
            },
            FlappyState::Running => {
                self.play(input.jump, input.pause);
                Flow::Next
            },
        }
    }
}

} // verus!
