//! The closed sets of values the engine works with: what a cell holds, which
//! state a session is in, and what a player can ask for.

use vstd::prelude::*;

verus! {

/// What one cell of the arena holds.
#[derive(PartialEq, Eq, Structural, Clone, Copy, Debug)]
pub enum ObjectType {
    /// A robot that steps once per turn.
    Robot1,
    /// A robot that steps twice per turn.
    Robot2,
    Player,
    /// Inert debris; robots die on it, and the player may push it.
    Heap,
    /// Nothing stands here.
    Empty,
}

impl ObjectType {
    /// The capability shared by both kinds of robot.
    pub open spec fn spec_is_robot(&self) -> bool {
        *self == ObjectType::Robot1 || *self == ObjectType::Robot2
    }

    #[verifier::when_used_as_spec(spec_is_robot)]
    pub fn is_robot(&self) -> (b: bool)
        ensures
            b == self.spec_is_robot(),
    {
        *self == ObjectType::Robot1 || *self == ObjectType::Robot2
    }
}

/// Where a session stands between two turns.
#[derive(PartialEq, Eq, Structural, Clone, Copy, Debug)]
pub enum GameState {
    Playing,
    Waiting,
    GameComplete,
    LevelComplete,
    Dead,
}

/// What the player can ask for while the session is `Playing`.
#[derive(PartialEq, Eq, Structural, Clone, Copy, Debug)]
pub enum PlayerCommand {
    NW,
    N,
    NE,
    W,
    Stay,
    E,
    SW,
    S,
    SE,
    SafeTeleport,
    RandomTeleport,
    Wait,
}

impl PlayerCommand {
    /// The displacement `(dx, dy)` a command stands for; `y` grows downwards.
    /// Commands that are no move count as no displacement.
    pub open spec fn direction(&self) -> (i16, i16) {
        match *self {
            PlayerCommand::NW => (-1i16, -1i16),
            PlayerCommand::N => (0i16, -1i16),
            PlayerCommand::NE => (1i16, -1i16),
            PlayerCommand::W => (-1i16, 0i16),
            PlayerCommand::Stay => (0i16, 0i16),
            PlayerCommand::E => (1i16, 0i16),
            PlayerCommand::SW => (-1i16, 1i16),
            PlayerCommand::S => (0i16, 1i16),
            PlayerCommand::SE => (1i16, 1i16),
            _ => (0i16, 0i16),
        }
    }

    pub fn to_direction(&self) -> (d: (i16, i16))
        ensures
            d == self.direction(),
    {
        match self {
            PlayerCommand::NW => (-1, -1),
            PlayerCommand::N => (0, -1),
            PlayerCommand::NE => (1, -1),
            PlayerCommand::W => (-1, 0),
            PlayerCommand::Stay => (0, 0),
            PlayerCommand::E => (1, 0),
            PlayerCommand::SW => (-1, 1),
            PlayerCommand::S => (0, 1),
            PlayerCommand::SE => (1, 1),
            _ => (0, 0),
        }
    }
}

} // verus!
