//! The text that shows a field: one line for each row, walls included, and
//! two characters for each cell.

use vstd::prelude::*;
use crate::collision::footprint_in_bounds;
use crate::field::{merged, Field, FIELD_HEIGHT, FIELD_WIDTH};
use crate::game::Game;

verus! {

/// The character `[`, the left half of a settled cell.
pub const SETTLED_LEFT: u8 = 0x5b;

/// The character `]`, the right half of a settled cell.
pub const SETTLED_RIGHT: u8 = 0x5d;

/// A blank, the left half of an empty cell.
pub const EMPTY_LEFT: u8 = 0x20;

/// The character `.`, the right half of an empty cell.
pub const EMPTY_RIGHT: u8 = 0x2e;

/// The line feed that ends each row.
pub const LINE_END: u8 = 0x0a;

/// The two characters that show a cell: `[]` if it is settled, a blank and a
/// dot if it is not.
pub open spec fn glyph(settled: bool) -> Seq<u8> {
    if settled {
        seq![SETTLED_LEFT, SETTLED_RIGHT]
    } else {
        seq![EMPTY_LEFT, EMPTY_RIGHT]
    }
}

/// The text of the first `n` cells of a row, left to right.
pub open spec fn row_text(row: Seq<bool>, n: int) -> Seq<u8>
    decreases n,
{
    if n <= 0 {
        Seq::empty()
    } else {
        row_text(row, n - 1) + glyph(row[n - 1])
    }
}

/// The text of the first `n` rows of a grid, top to bottom, each row ended by
/// a line feed.
pub open spec fn grid_text(grid: Seq<Seq<bool>>, n: int) -> Seq<u8>
    decreases n,
{
    if n <= 0 {
        Seq::empty()
    } else {
        grid_text(grid, n - 1) + row_text(grid[n - 1], FIELD_WIDTH as int).push(LINE_END)
    }
}

/// The text that shows `field`.
pub fn field_text(field: &Field) -> (text: Vec<u8>)
    ensures
        text@ == grid_text(field@, FIELD_HEIGHT as int),
{
    let mut text: Vec<u8> = Vec::new();
    let mut y: usize = 0;
    while y < FIELD_HEIGHT
        invariant
            y <= FIELD_HEIGHT,
            text@ == grid_text(field@, y as int),
        decreases FIELD_HEIGHT - y,
    {
        let ghost above = text@;
        let mut x: usize = 0;
        while x < FIELD_WIDTH
            invariant
                y < FIELD_HEIGHT,
                x <= FIELD_WIDTH,
                text@ == above + row_text(field@[y as int], x as int),
            decreases FIELD_WIDTH - x,
        {
            let ghost before = text@;
            let settled = field.cells[y][x];
            assert(settled == field@[y as int][x as int]);
            if settled {
                text.push(SETTLED_LEFT);
                text.push(SETTLED_RIGHT);
            } else {
                text.push(EMPTY_LEFT);
                text.push(EMPTY_RIGHT);
            }
            assert(text@ =~= before + glyph(settled));
            assert(text@ =~= above + (row_text(field@[y as int], x as int) + glyph(settled)));
            x += 1;
        }
        text.push(LINE_END);
        assert(text@ =~= above + row_text(field@[y as int], FIELD_WIDTH as int).push(LINE_END));
        y += 1;
    }
    text
}

/// The text that shows a game: the field with the active block on it. Every
/// cell of the block must lie within the field's bounds.
pub fn draw(game: &Game) -> (text: Vec<u8>)
    requires
        footprint_in_bounds(game.pos, game.block),
    ensures
        text@ == grid_text(merged(game.field, game.pos, game.block), FIELD_HEIGHT as int),
{
    let shown = game.snapshot();
    field_text(&shown)
}

} // verus!
