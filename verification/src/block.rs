//! The block catalog: the closed set of block kinds and their shapes.

use vstd::prelude::*;

verus! {

/// Side length of the square occupancy mask of a block.
pub const MASK_SIZE: usize = 4;

/// Number of block kinds.
pub const KIND_COUNT: u8 = 7;

/// The occupancy mask of a block: `mask[row][col]` says whether the cell at
/// that offset from the anchor is filled.
pub type Mask = [[bool; 4]; 4];

/// One of the seven block kinds. Each has a single fixed orientation.
#[derive(Clone, Copy, Debug, PartialEq, Eq, Structural)]
pub enum BlockKind {
    I,
    O,
    S,
    Z,
    J,
    L,
    T,
}

impl BlockKind {
    /// The position of a kind in the enumeration, from 0.
    pub open spec fn index_spec(self) -> u8 {
        match self {
            BlockKind::I => 0,
            BlockKind::O => 1,
            BlockKind::S => 2,
            BlockKind::Z => 3,
            BlockKind::J => 4,
            BlockKind::L => 5,
            BlockKind::T => 6,
        }
    }

    /// The position of a kind in the enumeration, from 0.
    pub fn index(self) -> (i: u8)
        ensures
            i == self.index_spec(),
            i < KIND_COUNT,
    {
        match self {
            BlockKind::I => 0,
            BlockKind::O => 1,
            BlockKind::S => 2,
            BlockKind::Z => 3,
            BlockKind::J => 4,
            BlockKind::L => 5,
            BlockKind::T => 6,
        }
    }

    /// The kind at position `i` of the enumeration, if there is one.
    pub fn from_index(i: u8) -> (kind: Option<BlockKind>)
        ensures
            kind is Some <==> i < KIND_COUNT,
            kind is Some ==> kind->0.index_spec() == i,
    {
        match i {
            0 => Some(BlockKind::I),
            1 => Some(BlockKind::O),
            2 => Some(BlockKind::S),
            3 => Some(BlockKind::Z),
            4 => Some(BlockKind::J),
            5 => Some(BlockKind::L),
            6 => Some(BlockKind::T),
            _ => None,
        }
    }
}

/// Two kinds with the same index are the same kind, and every kind has an
/// index below `KIND_COUNT`: indices and kinds correspond one to one.
pub proof fn lemma_index_one_to_one(a: BlockKind, b: BlockKind)
    ensures
        a.index_spec() < KIND_COUNT,
        a.index_spec() == b.index_spec() ==> a == b,
{
}

/// Whether the mask of `kind` is set at offset (`row`, `col`) from the anchor.
/// Outside the 4x4 mask nothing is set.
pub open spec fn mask_bit(kind: BlockKind, row: int, col: int) -> bool {
    match kind {
        BlockKind::I => row == 1 && 0 <= col <= 3,
        BlockKind::O => 1 <= row <= 2 && 1 <= col <= 2,
        BlockKind::S => (row == 1 && 1 <= col <= 2) || (row == 2 && 0 <= col <= 1),
        BlockKind::Z => (row == 1 && 0 <= col <= 1) || (row == 2 && 1 <= col <= 2),
        BlockKind::J => (row == 1 && col == 0) || (row == 2 && 0 <= col <= 2),
        BlockKind::L => (row == 1 && col == 2) || (row == 2 && 0 <= col <= 2),
        BlockKind::T => (row == 1 && col == 1) || (row == 2 && 0 <= col <= 2),
    }
}

/// Looks up the occupancy mask of a block kind.
pub fn shape_of(kind: BlockKind) -> (mask: Mask)
    ensures
        forall|r: int, c: int|
            0 <= r < 4 && 0 <= c < 4 ==> #[trigger] mask[r][c] == mask_bit(kind, r, c),
{
    match kind {
        BlockKind::I => [
            [false, false, false, false],
            [true, true, true, true],
            [false, false, false, false],
            [false, false, false, false],
        ],
        BlockKind::O => [
            [false, false, false, false],
            [false, true, true, false],
            [false, true, true, false],
            [false, false, false, false],
        ],
        BlockKind::S => [
            [false, false, false, false],
            [false, true, true, false],
            [true, true, false, false],
            [false, false, false, false],
        ],
        BlockKind::Z => [
            [false, false, false, false],
            [true, true, false, false],
            [false, true, true, false],
            [false, false, false, false],
        ],
        BlockKind::J => [
            [false, false, false, false],
            [true, false, false, false],
            [true, true, true, false],
            [false, false, false, false],
        ],
        BlockKind::L => [
            [false, false, false, false],
            [false, false, true, false],
            [true, true, true, false],
            [false, false, false, false],
        ],
        BlockKind::T => [
            [false, false, false, false],
            [false, true, false, false],
            [true, true, true, false],
            [false, false, false, false],
        ],
    }
}

} // verus!
