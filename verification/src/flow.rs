//! What a game tells its caller after each frame, and the countdown that
//! precedes play.

use vstd::prelude::*;

verus! {

/// The number of ticks that a countdown shows.
pub const COUNTDOWN_TICKS: u8 = 3;

/// How long each tick of a countdown lasts, in milliseconds.
pub const TICK_MILLIS: u64 = 1_000;

/// What the caller of a game does after a frame.
#[derive(Clone, Copy, Debug, PartialEq, Eq, Structural)]
pub enum Flow {
    /// Show the next frame.
    Next,
    /// Hold the scene for a countdown, then show the next frame.
    Countdown,
    /// Leave the game for the menu.
    Leave,
}

/// A countdown of three ticks of one second each, known by the time at which
/// it started.
#[derive(Clone, Copy, Debug, PartialEq, Eq, Structural)]
pub struct Countdown {
    pub started_at: u64,
}

impl Countdown {
    /// The number that the countdown shows at time `now`: three during the
    /// first second, two during the second, one during the third, and zero
    /// from then on.
    pub open spec fn spec_remaining(self, now: u64) -> int {
        if now < self.started_at {
            COUNTDOWN_TICKS as int
        } else if now - self.started_at >= COUNTDOWN_TICKS * TICK_MILLIS {
            0
        } else {
            COUNTDOWN_TICKS - (now - self.started_at) / (TICK_MILLIS as int)
        }
    }

    pub fn start(now: u64) -> (c: Countdown)
        ensures
            c.started_at == now,
    {
        Countdown { started_at: now }
    }

    pub fn remaining(&self, now: u64) -> (r: u8)
        ensures
            r == self.spec_remaining(now),
            r <= COUNTDOWN_TICKS,
    {
        if now < self.started_at {
            COUNTDOWN_TICKS
        } else {
            let elapsed: u64 = now - self.started_at;
            if elapsed >= 3_000 {
                0
            } else {
                let ticks: u64 = elapsed / TICK_MILLIS;
                COUNTDOWN_TICKS - (ticks as u8)
            }
        }
    }

    /// Tells whether the countdown is over at time `now`: exactly when three
    /// seconds have passed since it started.
    pub fn finished(&self, now: u64) -> (r: bool)
        ensures
            r == (self.spec_remaining(now) == 0),
            r == (now - self.started_at >= COUNTDOWN_TICKS * TICK_MILLIS),
    {
        now >= self.started_at && now - self.started_at >= 3_000
    }
}

} // verus!
