//! The course of one game: the block falls, tick by tick and move by move,
//! until the player quits or the board is full. Both ends are final.

use vstd::prelude::*;
use crate::block::BlockKind;
use crate::field::{is_wall, lemma_field_by_view, Position};
use crate::game::{Game, Tick};
use crate::input::{Action, Input};
use crate::random::random_kind;

verus! {

/// Where a game stands.
#[derive(Clone, Copy, Debug, PartialEq, Eq, Structural)]
pub enum Phase {
    /// The active block is falling; ticks and moves are taken.
    Falling,
    /// A block was spawned onto settled cells. Nothing changes any more.
    BoardFull,
    /// The player quit. Nothing changes any more.
    Quit,
}

/// What can happen to a game.
#[derive(Clone, Copy, Debug, PartialEq, Eq, Structural)]
pub enum Event {
    /// The gravity timer fired.
    Tick,
    /// The player pressed a key.
    Input(Input),
}

/// A game and where it stands.
#[derive(Clone, Copy, Debug, PartialEq, Eq)]
pub struct Session {
    pub game: Game,
    pub phase: Phase,
}

/// A step is a function of the session, the event and the kind to spawn:
/// they fix the session after it and the answer. So whatever order the events
/// of a timer and of a player arrive in, the outcome is that of taking them
/// one after the other in that order.
pub proof fn lemma_step_is_a_function(
    before: Session,
    event: Event,
    next: BlockKind,
    first: Session,
    first_action: Action,
    second: Session,
    second_action: Action,
)
    requires
        before.stepped(event, next, first, first_action),
        before.stepped(event, next, second, second_action),
    ensures
        first == second,
        first_action == second_action,
{
    if before.phase == Phase::Falling && event == Event::Tick && before.game.live() {
        lemma_field_by_view(first.game.field, second.game.field);
    }
}

impl Session {
    /// Whether `after` and `action` are the session and the answer that
    /// `event` makes of this session, with `next` the kind of the block to
    /// spawn if the event locks the active block.
    ///
    /// While the block is falling, an input is handled as the game handles
    /// it, and a quit ends the session. A tick lets the block fall or locks
    /// it; if the block spawned then collides, or the active block was not
    /// live to begin with, the board is full. Once the session has ended,
    /// no event changes it.
    pub open spec fn stepped(
        self,
        event: Event,
        next: BlockKind,
        after: Session,
        action: Action,
    ) -> bool {
        match self.phase {
            Phase::Falling => match event {
                Event::Input(input) => {
                    &&& after.game == self.game.after_input(input)
                    &&& after.phase == if input == Input::Quit {
                        Phase::Quit
                    } else {
                        Phase::Falling
                    }
                    &&& action == input.action()
                },
                Event::Tick => if self.game.live() {
                    &&& self.game.tick_state(next, after.game)
                    &&& after.phase == if after.game.live() {
                        Phase::Falling
                    } else {
                        Phase::BoardFull
                    }
                    &&& action == if after.game.live() {
                        Action::Redraw
                    } else {
                        Action::GameOver
                    }
                } else {
                    &&& after.game == self.game
                    &&& after.phase == Phase::BoardFull
                    &&& action == Action::GameOver
                },
            },
            Phase::BoardFull => after == self && action == Action::GameOver,
            Phase::Quit => after == self && action == Action::Quit,
        }
    }

    /// A session on a new field with a falling block of `kind`.
    pub fn new(kind: BlockKind) -> (session: Session)
        ensures
            forall|r: int, c: int| #[trigger] session.game.field.occupied_at(r, c) == is_wall(r, c),
            session.game.pos == Position::spawn_spec(),
            session.game.block == kind,
            session.game.live(),
            session.phase == Phase::Falling,
    {
        Session { game: Game::new(kind), phase: Phase::Falling }
    }

    /// A session on a new field with a falling block of a random kind.
    pub fn new_random() -> (session: Session)
        ensures
            forall|r: int, c: int| #[trigger] session.game.field.occupied_at(r, c) == is_wall(r, c),
            session.game.pos == Position::spawn_spec(),
            session.game.live(),
            session.phase == Phase::Falling,
    {
        Session::new(random_kind())
    }

    /// Handles an input while the block is falling.
    fn take_input(&mut self, input: Input) -> (action: Action)
        requires
            old(self).phase == Phase::Falling,
        ensures
            forall|next: BlockKind|
                #![trigger old(self).stepped(Event::Input(input), next, *final(self), action)]
                old(self).stepped(Event::Input(input), next, *final(self), action),
    {
        let action = self.game.handle(input);
        match input {
            Input::Quit => {
                self.phase = Phase::Quit;
            },
            _ => {},
        }
        action
    }

    /// Sets the phase that follows the report of a tick, and answers it.
    fn take_report(&mut self, tick: Tick) -> (action: Action)
        requires
            old(self).phase == Phase::Falling,
            (tick is BoardFull) == !old(self).game.live(),
        ensures
            final(self).game == old(self).game,
            final(self).phase == if old(self).game.live() {
                Phase::Falling
            } else {
                Phase::BoardFull
            },
            action == if old(self).game.live() {
                Action::Redraw
            } else {
                Action::GameOver
            },
    {
        match tick {
            Tick::BoardFull { .. } => {
                self.phase = Phase::BoardFull;
                Action::GameOver
            },
            _ => Action::Redraw,
        }
    }

    /// The answer of a session that has ended, or that holds a block that is
    /// not live.
    fn take_nothing(&mut self) -> (action: Action)
        requires
            old(self).phase != Phase::Falling || !old(self).game.live(),
        ensures
            forall|next: BlockKind|
                #![trigger old(self).stepped(Event::Tick, next, *final(self), action)]
                old(self).stepped(Event::Tick, next, *final(self), action),
            old(self).phase != Phase::Falling ==> forall|event: Event, next: BlockKind|
                #![trigger old(self).stepped(event, next, *final(self), action)]
                old(self).stepped(event, next, *final(self), action),
    {
        match self.phase {
            Phase::Falling => {
                self.phase = Phase::BoardFull;
                Action::GameOver
            },
            Phase::BoardFull => Action::GameOver,
            Phase::Quit => Action::Quit,
        }
    }

    /// Takes one event, with `next` the kind of the block to spawn if the
    /// event locks the active block.
    pub fn step_with(&mut self, event: Event, next: BlockKind) -> (action: Action)
        ensures
            old(self).stepped(event, next, *final(self), action),
    {
        match self.phase {
            Phase::Falling => match event {
                Event::Input(input) => self.take_input(input),
                Event::Tick => {
                    if self.game.is_live() {
                        let tick = self.game.tick_with(next);
                        self.take_report(tick)
                    } else {
                        self.take_nothing()
                    }
                },
            },
            _ => self.take_nothing(),
        }
    }

    /// Takes one event. If it locks the active block, the kind of the next
    /// block is drawn at random: the step does what `step_with` does for the
    /// kind that was drawn.
    pub fn step(&mut self, event: Event) -> (action: Action)
        ensures
            exists|next: BlockKind| old(self).stepped(event, next, *final(self), action),
            old(self).phase != Phase::Falling ==> *final(self) == *old(self),
    {
        let ghost witness = BlockKind::I;
        match self.phase {
            Phase::Falling => match event {
                Event::Input(input) => {
                    let action = self.take_input(input);
                    assert(old(self).stepped(event, witness, *self, action));
                    action
                },
                Event::Tick => {
                    if self.game.is_live() {
                        let tick = self.game.tick();
                        let ghost drawn = choose|next: BlockKind|
                            old(self).game.ticked(next, self.game, tick);
                        let action = self.take_report(tick);
                        assert(old(self).stepped(event, drawn, *self, action));
                        action
                    } else {
                        let action = self.take_nothing();
                        assert(old(self).stepped(event, witness, *self, action));
                        action
                    }
                },
            },
            _ => {
                let action = self.take_nothing();
                assert(old(self).stepped(event, witness, *self, action));
                action
            },
        }
    }
}

} // verus!
