//! The menu that the two games share.

use vstd::prelude::*;

verus! {

/// What the program shows: the menu, or one of the games.
#[derive(Clone, Copy, Debug, PartialEq, Eq, Structural)]
pub enum GameState {
    Menu,
    Asteroids,
    FlappyBird,
}

/// The menu's buttons in one pass.
#[derive(Clone, Copy, Debug, PartialEq, Eq, Structural)]
pub struct MenuInput {
    /// The button of the shooter was clicked.
    pub asteroids: bool,
    /// The button of the side-scroller was clicked.
    pub flappy_bird: bool,
}

impl GameState {
    /// What comes after one pass. A game that was shown has been played to its
    /// end by then, so only the buttons count: the side-scroller's before the
    /// shooter's, and the menu where neither was clicked.
    pub open spec fn spec_next(self, input: MenuInput) -> GameState {
        if input.flappy_bird {
            GameState::FlappyBird
        } else if input.asteroids {
            GameState::Asteroids
        } else {
            GameState::Menu
        }
    }

    /// A game is to be played in this pass.
    pub open spec fn spec_plays(self) -> bool {
        self != GameState::Menu
    }

    pub fn next(self, input: &MenuInput) -> (after: GameState)
        ensures
            after == self.spec_next(*input),
    {
        let mut after = GameState::Menu;
        if input.asteroids {
            after = GameState::Asteroids;
        }
        if input.flappy_bird {
            after = GameState::FlappyBird;
        }
        after
    }

    pub fn plays(&self) -> (r: bool)
        ensures
            r == self.spec_plays(),
    {
        match self {
            GameState::Menu => false,
            _ => true,
        }
    }
}

} // verus!
