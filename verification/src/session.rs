//! The session as the surrounding program drives it: what a key asks for,
//! and what the program has to show once a command has been dealt with.
//!
//! The engine neither reads keys nor draws. The program around it hands over
//! one command at a time and gets back where the session stands. While the
//! session is `Waiting` it calls `Game::waiting_step` at its own pace; when
//! a level is won it calls `Game::next_level`, and when the player asks for
//! another game, `Game::new_game`.

use vstd::prelude::*;
use crate::enums::{GameState, PlayerCommand};
use crate::game::Game;
use crate::arena::robots;

verus! {

/// What the player can ask of the program.
#[derive(PartialEq, Eq, Structural, Clone, Copy, Debug)]
pub enum Command {
    /// A command for the engine.
    Play(PlayerCommand),
    /// Show how to play.
    Help,
    /// Leave the program.
    Quit,
}

/// What the program has to show after a command.
#[derive(PartialEq, Eq, Structural, Clone, Copy, Debug)]
pub enum Prompt {
    Nothing,
    /// The instructions.
    Help,
    /// The question whether the player really wants to leave.
    ConfirmQuit,
    /// The player is dead: say so and ask for another game.
    Dead,
    /// The level is won: say so and go on to the next.
    LevelComplete,
    /// The game is won: ask for another game.
    GameComplete,
}

/// Where the session stands after a command.
#[derive(PartialEq, Eq, Structural, Clone, Copy, Debug)]
pub struct TurnResult {
    pub state: GameState,
    /// Whether the command was carried out. A move that is refused, a safe
    /// teleport that cannot be had, and every command given while the
    /// session is not `Playing` leave the session as it was.
    pub changed: bool,
    pub prompt: Prompt,
}

impl Command {
    /// The command that a key stands for, if it stands for any. Letters
    /// count in upper and in lower case.
    pub open spec fn of_key(key: char) -> Option<Command> {
        if key == 'q' || key == 'Q' {
            Some(Command::Quit)
        } else if key == '?' {
            Some(Command::Help)
        } else if key == '7' || key == 'y' || key == 'Y' {
            Some(Command::Play(PlayerCommand::NW))
        } else if key == '8' || key == 'k' || key == 'K' {
            Some(Command::Play(PlayerCommand::N))
        } else if key == '9' || key == 'u' || key == 'U' {
            Some(Command::Play(PlayerCommand::NE))
        } else if key == '4' || key == 'h' || key == 'H' {
            Some(Command::Play(PlayerCommand::W))
        } else if key == '5' || key == ' ' {
            Some(Command::Play(PlayerCommand::Stay))
        } else if key == '6' || key == 'l' || key == 'L' {
            Some(Command::Play(PlayerCommand::E))
        } else if key == '1' || key == 'b' || key == 'B' {
            Some(Command::Play(PlayerCommand::SW))
        } else if key == '2' || key == 'j' || key == 'J' {
            Some(Command::Play(PlayerCommand::S))
        } else if key == '3' || key == 'n' || key == 'N' {
            Some(Command::Play(PlayerCommand::SE))
        } else if key == '+' || key == '\n' {
            Some(Command::Play(PlayerCommand::SafeTeleport))
        } else if key == '-' || key == 't' || key == 'T' {
            Some(Command::Play(PlayerCommand::RandomTeleport))
        } else if key == 'w' || key == 'W' {
            Some(Command::Play(PlayerCommand::Wait))
        } else {
            None
        }
    }

    pub fn from_key(key: char) -> (command: Option<Command>)
        ensures
            command == Self::of_key(key),
    {
        match key {
            'q' | 'Q' => Some(Command::Quit),
            '?' => Some(Command::Help),
            '7' | 'y' | 'Y' => Some(Command::Play(PlayerCommand::NW)),
            '8' | 'k' | 'K' => Some(Command::Play(PlayerCommand::N)),
            '9' | 'u' | 'U' => Some(Command::Play(PlayerCommand::NE)),
            '4' | 'h' | 'H' => Some(Command::Play(PlayerCommand::W)),
            '5' | ' ' => Some(Command::Play(PlayerCommand::Stay)),
            '6' | 'l' | 'L' => Some(Command::Play(PlayerCommand::E)),
            '1' | 'b' | 'B' => Some(Command::Play(PlayerCommand::SW)),
            '2' | 'j' | 'J' => Some(Command::Play(PlayerCommand::S)),
            '3' | 'n' | 'N' => Some(Command::Play(PlayerCommand::SE)),
            '+' | '\n' => Some(Command::Play(PlayerCommand::SafeTeleport)),
            '-' | 't' | 'T' => Some(Command::Play(PlayerCommand::RandomTeleport)),
            'w' | 'W' => Some(Command::Play(PlayerCommand::Wait)),
            _ => None,
        }
    }
}

impl Prompt {
    /// What there is to show after `command` has left the session in
    /// `state`.
    pub open spec fn after(command: Command, state: GameState) -> Prompt {
        match command {
            Command::Help => Prompt::Help,
            Command::Quit => Prompt::ConfirmQuit,
            Command::Play(_) => Self::of_state(state),
        }
    }

    /// What a state of the session asks the program to show.
    pub open spec fn of_state(state: GameState) -> Prompt {
        match state {
            GameState::Dead => Prompt::Dead,
            GameState::LevelComplete => Prompt::LevelComplete,
            GameState::GameComplete => Prompt::GameComplete,
            _ => Prompt::Nothing,
        }
    }
}

impl Game {
    /// What the state of the session asks the program to show.
    pub fn prompt(&self) -> (prompt: Prompt)
        ensures
            prompt == Prompt::of_state(self@.state),
    {
        match self.state() {
            GameState::Dead => Prompt::Dead,
            GameState::LevelComplete => Prompt::LevelComplete,
            GameState::GameComplete => Prompt::GameComplete,
            _ => Prompt::Nothing,
        }
    }

    /// Deals with one command of the player and reports where the session
    /// stands.
    ///
    /// A command for the engine is carried out as `player_command` does it.
    /// `Help` and `Quit` leave the session alone; they only tell the program
    /// what to show.
    pub fn submit_command(&mut self, command: Command) -> (turn: TurnResult)
        requires
            old(self).wf(),
            old(self)@.state == GameState::Playing && command == Command::Play(
                PlayerCommand::RandomTeleport,
            ) ==> old(self)@.has_free(),
        ensures
            final(self).wf(),
            match command {
                Command::Play(order) => final(self)@.obeys(old(self)@, order) && turn.changed
                    == old(self)@.carries_out(order),
                _ => final(self)@ == old(self)@ && !turn.changed,
            },
            !turn.changed ==> final(self)@ == old(self)@,
            turn.state == final(self)@.state,
            turn.prompt == Prompt::after(command, final(self)@.state),
            robots(final(self)@.cells) <= robots(old(self)@.cells),
    {
        match command {
            Command::Help => TurnResult {
                state: self.state(),
                changed: false,
                prompt: Prompt::Help,
            },
            Command::Quit => TurnResult {
                state: self.state(),
                changed: false,
                prompt: Prompt::ConfirmQuit,
            },
            Command::Play(order) => {
                let changed = self.player_command(order);
                TurnResult { state: self.state(), changed, prompt: self.prompt() }
            },
        }
    }
}

} // verus!
