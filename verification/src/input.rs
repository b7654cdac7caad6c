//! The player's input: the keys that matter, the move each asks for, and what
//! the game does with it.

use vstd::prelude::*;
use crate::collision::collides;
use crate::field::Position;
use crate::game::Game;

verus! {

/// A key press as the input source reports it.
#[derive(Clone, Copy, Debug, PartialEq, Eq, Structural)]
pub enum Key {
    Left,
    Right,
    Up,
    Down,
    Char(char),
    /// Any other key, and a failed read.
    Other,
}

/// What the player asks for.
#[derive(Clone, Copy, Debug, PartialEq, Eq, Structural)]
pub enum Input {
    MoveLeft,
    MoveRight,
    MoveDown,
    Quit,
    /// Nothing the game reacts to.
    Other,
}

/// What the caller has to do after an input was handled.
#[derive(Clone, Copy, Debug, PartialEq, Eq, Structural)]
pub enum Action {
    /// Show the state again: a move was tried.
    Redraw,
    /// End the game: the player quit.
    Quit,
    /// Show the state a last time and end the game: the board is full.
    GameOver,
    /// Nothing: the input was ignored.
    Nothing,
}

impl Input {
    /// The input that a key stands for: the arrows left, right and down move,
    /// the letter `q` quits, every other key is ignored.
    pub open spec fn of_key(key: Key) -> Input {
        match key {
            Key::Left => Input::MoveLeft,
            Key::Right => Input::MoveRight,
            Key::Down => Input::MoveDown,
            Key::Char(c) => if c == 'q' {
                Input::Quit
            } else {
                Input::Other
            },
            _ => Input::Other,
        }
    }

    /// The input that a key stands for.
    pub fn from_key(key: Key) -> (input: Input)
        ensures
            input == Input::of_key(key),
    {
        match key {
            Key::Left => Input::MoveLeft,
            Key::Right => Input::MoveRight,
            Key::Down => Input::MoveDown,
            Key::Char(c) => if c == 'q' {
                Input::Quit
            } else {
                Input::Other
            },
            _ => Input::Other,
        }
    }

    /// What the caller has to do after this input.
    pub open spec fn action(self) -> Action {
        match self {
            Input::MoveLeft | Input::MoveRight | Input::MoveDown => Action::Redraw,
            Input::Quit => Action::Quit,
            Input::Other => Action::Nothing,
        }
    }
}

impl Input {
    /// The anchor that a move asks for, from the anchor `pos`; for an input
    /// that is no move, `pos` itself.
    pub open spec fn target(self, pos: Position) -> Position {
        match self {
            Input::MoveLeft => pos.left_spec(),
            Input::MoveRight => pos.right_spec(),
            Input::MoveDown => pos.below_spec(),
            _ => pos,
        }
    }
}

/// A move whose target collides is rejected, and the state after it is the
/// state before it, field, anchor and kind alike.
pub proof fn lemma_rejected_move_keeps_state(game: Game, input: Input)
    requires
        collides(game.field, input.target(game.pos), game.block),
    ensures
        game.after_input(input) == game,
{
}

/// No input changes the field or the kind of the active block, and a live
/// block stays live.
pub proof fn lemma_input_keeps_field(game: Game, input: Input)
    ensures
        game.after_input(input).field == game.field,
        game.after_input(input).block == game.block,
        game.live() ==> game.after_input(input).live(),
{
}

impl Game {
    /// The state after `input`: a move is made if the block does not collide
    /// at its target and rejected if it does; any other input changes
    /// nothing.
    pub open spec fn after_input(self, input: Input) -> Game {
        match input {
            Input::MoveLeft => self.moved_to(self.pos.left_spec()),
            Input::MoveRight => self.moved_to(self.pos.right_spec()),
            Input::MoveDown => self.moved_to(self.pos.below_spec()),
            _ => self,
        }
    }

    /// Handles one input: tries the move it asks for, and says what the
    /// caller has to do next.
    pub fn handle(&mut self, input: Input) -> (action: Action)
        ensures
            *final(self) == old(self).after_input(input),
            action == input.action(),
            old(self).live() ==> final(self).live(),
    {
        match input {
            Input::MoveLeft => {
                self.move_left();
                Action::Redraw
            },
            Input::MoveRight => {
                self.move_right();
                Action::Redraw
            },
            Input::MoveDown => {
                self.move_down();
                Action::Redraw
            },
            Input::Quit => Action::Quit,
            Input::Other => Action::Nothing,
        }
    }
}

} // verus!
