//! The collision rule: the one test that every move and every lock passes
//! through. A block collides when one of its cells lies outside the field's
//! bounds, that is off the grid, or on a settled cell; the cells of the walls
//! are settled cells.

use vstd::prelude::*;
use crate::block::{mask_bit, shape_of, BlockKind};
use crate::field::{in_grid, is_wall, Field, Position, FIELD_HEIGHT, FIELD_WIDTH};

verus! {

/// Whether the mask cell at offset (`r`, `c`) of the block `kind` anchored at
/// `pos` is set and lands outside the field's bounds or on a settled cell.
pub open spec fn hits(field: Field, pos: Position, kind: BlockKind, r: int, c: int) -> bool {
    mask_bit(kind, r, c) && (!in_grid(pos.y + r, pos.x + c) || field.occupied_at(
        pos.y + r,
        pos.x + c,
    ))
}

/// Whether the block `kind` anchored at `pos` collides: some set cell of its
/// mask lands outside the field's bounds or on a settled cell.
pub open spec fn collides(field: Field, pos: Position, kind: BlockKind) -> bool {
    exists|r: int, c: int| 0 <= r < 4 && 0 <= c < 4 && #[trigger] hits(field, pos, kind, r, c)
}

/// Whether every set cell of the mask of `kind`, anchored at `pos`, lies
/// within the field's bounds.
pub open spec fn footprint_in_bounds(pos: Position, kind: BlockKind) -> bool {
    forall|r: int, c: int|
        0 <= r < 4 && 0 <= c < 4 && #[trigger] mask_bit(kind, r, c) ==> in_grid(
            pos.y + r,
            pos.x + c,
        )
}

/// Decides whether the block `block` anchored at `pos` collides: whether one
/// of its cells lies off the grid or on a settled cell of `field`.
pub fn is_collision(field: &Field, pos: &Position, block: BlockKind) -> (hit: bool)
    ensures
        hit == collides(*field, *pos, block),
{
    let mask = shape_of(block);
    let mut y: usize = 0;
    while y < 4
        invariant
            y <= 4,
            forall|r: int, c: int| 0 <= r < 4 && 0 <= c < 4 ==> mask[r][c] == mask_bit(block, r, c),
            forall|r: int, c: int| 0 <= r < y && 0 <= c < 4 ==> !hits(*field, *pos, block, r, c),
        decreases 4 - y,
    {
        let mut x: usize = 0;
        while x < 4
            invariant
                y < 4,
                x <= 4,
                forall|r: int, c: int|
                    0 <= r < 4 && 0 <= c < 4 ==> mask[r][c] == mask_bit(block, r, c),
                forall|r: int, c: int|
                    0 <= r < y && 0 <= c < 4 ==> !hits(*field, *pos, block, r, c),
                forall|c: int| 0 <= c < x ==> !hits(*field, *pos, block, y as int, c),
            decreases 4 - x,
        {
            if mask[y][x] {
                assert(mask_bit(block, y as int, x as int));
                if pos.y >= FIELD_HEIGHT || pos.x >= FIELD_WIDTH {
                    assert(hits(*field, *pos, block, y as int, x as int));
                    return true;
                }
                let row: usize = pos.y + y;
                let col: usize = pos.x + x;
                if row >= FIELD_HEIGHT || col >= FIELD_WIDTH {
                    assert(hits(*field, *pos, block, y as int, x as int));
                    return true;
                }
                if field.occupied(row, col) {
                    assert(hits(*field, *pos, block, y as int, x as int));
                    return true;
                }
            }
            x += 1;
        }
        y += 1;
    }
    false
}

/// Decides whether every cell of the block `kind` anchored at `pos` lies
/// within the field's bounds.
pub fn footprint_fits(pos: &Position, kind: BlockKind) -> (fits: bool)
    ensures
        fits == footprint_in_bounds(*pos, kind),
{
    let mask = shape_of(kind);
    let mut y: usize = 0;
    while y < 4
        invariant
            y <= 4,
            forall|r: int, c: int| 0 <= r < 4 && 0 <= c < 4 ==> mask[r][c] == mask_bit(kind, r, c),
            forall|r: int, c: int|
                0 <= r < y && 0 <= c < 4 && #[trigger] mask_bit(kind, r, c) ==> in_grid(
                    pos.y + r,
                    pos.x + c,
                ),
        decreases 4 - y,
    {
        let mut x: usize = 0;
        while x < 4
            invariant
                y < 4,
                x <= 4,
                forall|r: int, c: int|
                    0 <= r < 4 && 0 <= c < 4 ==> mask[r][c] == mask_bit(kind, r, c),
                forall|r: int, c: int|
                    0 <= r < y && 0 <= c < 4 && #[trigger] mask_bit(kind, r, c) ==> in_grid(
                        pos.y + r,
                        pos.x + c,
                    ),
                forall|c: int|
                    0 <= c < x && #[trigger] mask_bit(kind, y as int, c) ==> in_grid(
                        pos.y + y,
                        pos.x + c,
                    ),
            decreases 4 - x,
        {
            if mask[y][x] {
                assert(mask_bit(kind, y as int, x as int));
                if pos.y >= FIELD_HEIGHT - y || pos.x >= FIELD_WIDTH - x {
                    return false;
                }
            }
            x += 1;
        }
        y += 1;
    }
    true
}

/// On a field whose wall cells are settled, a block with a set mask cell on a
/// wall collides.
pub proof fn lemma_wall_collides(field: Field, pos: Position, kind: BlockKind, r: int, c: int)
    requires
        forall|row: int, col: int| is_wall(row, col) ==> #[trigger] field.occupied_at(row, col),
        0 <= r < 4,
        0 <= c < 4,
        mask_bit(kind, r, c),
        is_wall(pos.y + r, pos.x + c),
    ensures
        collides(field, pos, kind),
{
    assert(hits(field, pos, kind, r, c));
}

/// A block with a set mask cell outside the field's bounds collides, whatever
/// the field holds.
pub proof fn lemma_out_of_bounds_collides(
    field: Field,
    pos: Position,
    kind: BlockKind,
    r: int,
    c: int,
)
    requires
        0 <= r < 4,
        0 <= c < 4,
        mask_bit(kind, r, c),
        !in_grid(pos.y + r, pos.x + c),
    ensures
        collides(field, pos, kind),
{
    assert(hits(field, pos, kind, r, c));
}

/// On a field with no settled cell, a block whose whole footprint lies within
/// the field's bounds does not collide.
pub proof fn lemma_empty_field_no_collision(field: Field, pos: Position, kind: BlockKind)
    requires
        forall|r: int, c: int| !field.occupied_at(r, c),
        footprint_in_bounds(pos, kind),
    ensures
        !collides(field, pos, kind),
{
}

} // verus!
