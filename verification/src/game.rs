//! The game state and its transitions: moves asked for by the player, and the
//! gravity tick that lets the active block fall or locks it.
//!
//! A block that is spawned onto settled cells ends the game: the transition
//! that spawned it reports the board as full, and the state is no longer live.

use vstd::prelude::*;
use crate::block::BlockKind;
use crate::collision::{collides, footprint_in_bounds, is_collision};
use crate::field::{
    cleared, covers, full_row_count, is_wall, lemma_cleared_keeps_border, merged, playable, Field,
    Position,
};
use crate::random::random_kind;

verus! {

/// The whole state of a game: the settled cells, the anchor of the active
/// block and its kind.
#[derive(Clone, Copy, Debug, PartialEq, Eq)]
pub struct Game {
    pub field: Field,
    pub pos: Position,
    pub block: BlockKind,
}

/// What a gravity tick did.
#[derive(Clone, Copy, Debug, PartialEq, Eq, Structural)]
pub enum Tick {
    /// The active block moved down by one row.
    Fell,
    /// The active block was locked, `cleared` full rows were removed and a
    /// new block was spawned.
    Locked { cleared: usize },
    /// As `Locked`, but the new block collides where it was spawned: the
    /// board is full and the game is over.
    BoardFull { cleared: usize },
}

/// Every block spawned at the initial anchor has its whole footprint within
/// the field's bounds.
pub proof fn lemma_spawn_in_bounds(kind: BlockKind)
    ensures
        footprint_in_bounds(Position::spawn_spec(), kind),
{
}

/// A gravity tick clears no cell of a wall: every cell outside the playable
/// area that was settled before the tick is settled after it.
pub proof fn lemma_tick_keeps_walls(before: Game, next: BlockKind, after: Game)
    requires
        before.tick_state(next, after),
    ensures
        forall|r: int, c: int|
            !playable(r, c) && before.field.occupied_at(r, c) ==> #[trigger] after.field.occupied_at(
                r,
                c,
            ),
{
    if !before.can_fall() {
        let grid = merged(before.field, before.pos, before.block);
        lemma_cleared_keeps_border(grid);
        assert forall|r: int, c: int|
            !playable(r, c) && before.field.occupied_at(r, c) implies #[trigger] after.field.occupied_at(
            r,
            c,
        ) by {
            assert(grid[r][c]);
            assert(cleared(grid)[r][c] == grid[r][c]);
            assert(after.field@[r][c] == after.field.cells[r][c]);
        }
    }
}

impl Game {
    /// Whether the active block is live: it lies within the field's bounds
    /// and on no settled cell, so on no wall either.
    pub open spec fn live(self) -> bool {
        !collides(self.field, self.pos, self.block)
    }

    /// The state after an attempt to move the active block to `target`: the
    /// block is there if it does not collide there, else nothing has changed.
    pub open spec fn moved_to(self, target: Position) -> Game {
        if collides(self.field, target, self.block) {
            self
        } else {
            Game { field: self.field, pos: target, block: self.block }
        }
    }

    /// Whether a gravity tick lets the active block fall.
    pub open spec fn can_fall(self) -> bool {
        !collides(self.field, self.pos.below_spec(), self.block)
    }

    /// The grid after the active block is locked where it is and the full
    /// rows are removed.
    pub open spec fn locked_grid(self) -> Seq<Seq<bool>> {
        cleared(merged(self.field, self.pos, self.block))
    }

    /// Number of rows that locking the active block where it is fills.
    pub open spec fn locked_rows(self) -> int {
        full_row_count(merged(self.field, self.pos, self.block))
    }

    /// A game on a new field, where the walls alone are settled, with a block
    /// of `kind` at the initial anchor.
    pub fn new(kind: BlockKind) -> (game: Game)
        ensures
            forall|r: int, c: int| #[trigger] game.field.occupied_at(r, c) == is_wall(r, c),
            game.pos == Position::spawn_spec(),
            game.block == kind,
            game.live(),
    {
        proof {
            lemma_spawn_in_bounds(kind);
        }
        Game { field: Field::new(), pos: Position::init(), block: kind }
    }

    /// A game on a new field with a block of a random kind at the initial
    /// anchor.
    pub fn new_random() -> (game: Game)
        ensures
            forall|r: int, c: int| #[trigger] game.field.occupied_at(r, c) == is_wall(r, c),
            game.pos == Position::spawn_spec(),
            game.live(),
    {
        Game::new(random_kind())
    }

    /// Whether the active block is live.
    pub fn is_live(&self) -> (live: bool)
        ensures
            live == self.live(),
    {
        !is_collision(&self.field, &self.pos, self.block)
    }

    /// Tries to move the active block to `target`. If it would collide there
    /// the move is rejected and nothing changes.
    pub fn try_move(&mut self, target: Position) -> (moved: bool)
        ensures
            moved == !collides(old(self).field, target, old(self).block),
            *final(self) == old(self).moved_to(target),
            !moved ==> *final(self) == *old(self),
            old(self).live() ==> final(self).live(),
    {
        if is_collision(&self.field, &target, self.block) {
            false
        } else {
            self.pos = target;
            true
        }
    }

    /// Tries to move the active block one column to the left.
    pub fn move_left(&mut self) -> (moved: bool)
        ensures
            moved == !collides(old(self).field, old(self).pos.left_spec(), old(self).block),
            *final(self) == old(self).moved_to(old(self).pos.left_spec()),
            !moved ==> *final(self) == *old(self),
            old(self).live() ==> final(self).live(),
    {
        let target = self.pos.left();
        self.try_move(target)
    }

    /// Tries to move the active block one column to the right.
    pub fn move_right(&mut self) -> (moved: bool)
        ensures
            moved == !collides(old(self).field, old(self).pos.right_spec(), old(self).block),
            *final(self) == old(self).moved_to(old(self).pos.right_spec()),
            !moved ==> *final(self) == *old(self),
            old(self).live() ==> final(self).live(),
    {
        let target = self.pos.right();
        self.try_move(target)
    }

    /// Tries to move the active block one row down.
    pub fn move_down(&mut self) -> (moved: bool)
        ensures
            moved == old(self).can_fall(),
            *final(self) == old(self).moved_to(old(self).pos.below_spec()),
            !moved ==> *final(self) == *old(self),
            old(self).live() ==> final(self).live(),
    {
        let target = self.pos.below();
        self.try_move(target)
    }

    /// Replaces the active block by a block of `kind` at the initial anchor,
    /// whatever the block before it was. Returns whether the new block is
    /// live; if it is not, the board is full.
    pub fn spawn(&mut self, kind: BlockKind) -> (live: bool)
        ensures
            final(self).field == old(self).field,
            final(self).pos == Position::spawn_spec(),
            final(self).block == kind,
            live == final(self).live(),
    {
        self.pos = Position::init();
        self.block = kind;
        self.is_live()
    }

    /// Locks the active block where it is, removes the full rows and spawns a
    /// block of `next`. Returns the number of rows removed and whether the
    /// new block is live.
    pub fn lock(&mut self, next: BlockKind) -> (done: (usize, bool))
        requires
            old(self).live(),
        ensures
            final(self).field@ == old(self).locked_grid(),
            final(self).pos == Position::spawn_spec(),
            final(self).block == next,
            done.0 == old(self).locked_rows(),
            done.1 == final(self).live(),
    {
        let pos = self.pos;
        self.field.merge(&pos, self.block);
        let count = self.field.clear_full_rows();
        let live = self.spawn(next);
        (count, live)
    }

    /// Whether `after` is the state that one gravity tick makes of this
    /// state, with `next` the kind of the block to spawn. The block falls by
    /// one row if it can. If it cannot, it is locked where it is, the full
    /// rows are removed, and a block of `next` is spawned at the initial
    /// anchor.
    pub open spec fn tick_state(self, next: BlockKind, after: Game) -> bool {
        if self.can_fall() {
            after == (Game { field: self.field, pos: self.pos.below_spec(), block: self.block })
        } else {
            &&& after.field@ == self.locked_grid()
            &&& after.pos == Position::spawn_spec()
            &&& after.block == next
        }
    }

    /// What a gravity tick that led from this state to `after` reports: that
    /// the block fell, or that it was locked and how many rows were removed,
    /// and then whether the board is full because the new block collides.
    pub open spec fn tick_report(self, after: Game) -> Tick {
        if self.can_fall() {
            Tick::Fell
        } else if after.live() {
            Tick::Locked { cleared: self.locked_rows() as usize }
        } else {
            Tick::BoardFull { cleared: self.locked_rows() as usize }
        }
    }

    /// Whether `after` and `tick` are the state and the report of one gravity
    /// tick on this state, with `next` the kind of the block to spawn.
    pub open spec fn ticked(self, next: BlockKind, after: Game, tick: Tick) -> bool {
        self.tick_state(next, after) && tick == self.tick_report(after)
    }

    /// Locks the active block and reports it as a tick does.
    fn lock_tick(&mut self, next: BlockKind) -> (tick: Tick)
        requires
            old(self).live(),
            !old(self).can_fall(),
        ensures
            old(self).ticked(next, *final(self), tick),
            (tick is BoardFull) == !final(self).live(),
    {
        let (cleared, live) = self.lock(next);
        if live {
            Tick::Locked { cleared }
        } else {
            Tick::BoardFull { cleared }
        }
    }

    /// One gravity tick, with `next` the kind of the block to spawn if the
    /// active block locks.
    pub fn tick_with(&mut self, next: BlockKind) -> (tick: Tick)
        requires
            old(self).live(),
        ensures
            old(self).ticked(next, *final(self), tick),
            (tick is BoardFull) == !final(self).live(),
    {
        if self.move_down() {
            Tick::Fell
        } else {
            self.lock_tick(next)
        }
    }

    /// One gravity tick. If the active block locks, the kind of the next
    /// block is drawn at random: the tick does what `tick_with` does for the
    /// kind that was drawn.
    pub fn tick(&mut self) -> (tick: Tick)
        requires
            old(self).live(),
        ensures
            exists|next: BlockKind| old(self).ticked(next, *final(self), tick),
            old(self).can_fall() ==> tick == Tick::Fell,
            (tick is BoardFull) == !final(self).live(),
    {
        if self.move_down() {
            assert(old(self).ticked(BlockKind::I, *self, Tick::Fell));
            Tick::Fell
        } else {
            let next = random_kind();
            let tick = self.lock_tick(next);
            assert(old(self).ticked(next, *self, tick));
            tick
        }
    }

    /// The field as it is shown: the settled cells together with the cells of
    /// the active block. Every cell of the block must lie within the field's
    /// bounds; it need not be live.
    pub fn snapshot(&self) -> (shown: Field)
        requires
            footprint_in_bounds(self.pos, self.block),
        ensures
            shown@ == merged(self.field, self.pos, self.block),
            forall|r: int, c: int|
                #[trigger] shown.occupied_at(r, c) == (self.field.occupied_at(r, c) || covers(
                    self.pos,
                    self.block,
                    r,
                    c,
                )),
    {
        let mut shown = self.field;
        shown.overlay(&self.pos, self.block);
        shown
    }
}

} // verus!
