//! The field and the position of the active block.
//!
//! The field is a grid of `FIELD_HEIGHT` rows by `FIELD_WIDTH` columns, and
//! its bounds are those of the grid. The outermost rows and columns are the
//! walls: in a new field their cells are settled, and nothing ever clears
//! them. The cells strictly inside them are the playable area.

use vstd::prelude::*;
use crate::block::{mask_bit, shape_of, BlockKind};
use crate::collision::{collides, footprint_in_bounds, hits};

verus! {

/// Number of columns of the field, the two wall columns included.
pub const FIELD_WIDTH: usize = 12;

/// Number of rows of the field, the two wall rows included.
pub const FIELD_HEIGHT: usize = 22;

/// First playable row.
pub const PLAY_TOP: usize = 1;

/// Last playable row.
pub const PLAY_BOTTOM: usize = 20;

/// First playable column.
pub const PLAY_LEFT: usize = 1;

/// Last playable column.
pub const PLAY_RIGHT: usize = 10;

/// Column of the anchor of a freshly spawned block.
pub const SPAWN_X: usize = 4;

/// Row of the anchor of a freshly spawned block.
pub const SPAWN_Y: usize = 0;

/// The anchor of the active block: the field coordinate of the top-left corner
/// of its mask.
#[derive(Clone, Copy, Debug, PartialEq, Eq, Structural)]
pub struct Position {
    pub x: usize,
    pub y: usize,
}

/// The grid of settled cells.
#[derive(Clone, Copy, Debug, PartialEq, Eq)]
pub struct Field {
    pub cells: [[bool; FIELD_WIDTH]; FIELD_HEIGHT],
}

/// Whether (`row`, `col`) is a cell of the grid, walls included: whether it is
/// within the field's bounds.
pub open spec fn in_grid(row: int, col: int) -> bool {
    0 <= row < FIELD_HEIGHT && 0 <= col < FIELD_WIDTH
}

/// Whether (`row`, `col`) is a cell of the playable area.
pub open spec fn playable(row: int, col: int) -> bool {
    PLAY_TOP <= row <= PLAY_BOTTOM && PLAY_LEFT <= col <= PLAY_RIGHT
}

/// Whether (`row`, `col`) is a cell of a wall: a cell of the grid in its
/// first or last row or column.
pub open spec fn is_wall(row: int, col: int) -> bool {
    in_grid(row, col) && (row == 0 || row == FIELD_HEIGHT - 1 || col == 0 || col == FIELD_WIDTH
        - 1)
}

/// Whether a grid has the shape of a field: `FIELD_HEIGHT` rows of
/// `FIELD_WIDTH` cells.
pub open spec fn shaped(grid: Seq<Seq<bool>>) -> bool {
    &&& grid.len() == FIELD_HEIGHT
    &&& forall|r: int| 0 <= r < FIELD_HEIGHT ==> (#[trigger] grid[r]).len() == FIELD_WIDTH
}

/// Whether the block `kind` anchored at `pos` covers the cell (`row`, `col`).
pub open spec fn covers(pos: Position, kind: BlockKind, row: int, col: int) -> bool {
    mask_bit(kind, row - pos.y, col - pos.x)
}

/// The grid of `field` with the cells that the block `kind` anchored at `pos`
/// covers settled as well.
pub open spec fn merged(field: Field, pos: Position, kind: BlockKind) -> Seq<Seq<bool>> {
    Seq::new(
        FIELD_HEIGHT as nat,
        |r: int|
            Seq::new(
                FIELD_WIDTH as nat,
                |c: int| field.occupied_at(r, c) || covers(pos, kind, r, c),
            ),
    )
}

/// Whether a row is full: every playable column of it is settled.
pub open spec fn row_full(row: Seq<bool>) -> bool {
    forall|c: int| PLAY_LEFT <= c <= PLAY_RIGHT ==> #[trigger] row[c]
}

/// A row with no settled cell.
pub open spec fn empty_row() -> Seq<bool> {
    Seq::new(FIELD_WIDTH as nat, |c: int| false)
}

/// The row that has the playable columns of `inner` between the wall columns
/// of `frame`.
pub open spec fn framed(inner: Seq<bool>, frame: Seq<bool>) -> Seq<bool> {
    Seq::new(
        FIELD_WIDTH as nat,
        |c: int|
            if PLAY_LEFT <= c <= PLAY_RIGHT {
                inner[c]
            } else {
                frame[c]
            },
    )
}

/// The rows among the playable rows `PLAY_TOP..=n` of `grid` that are not
/// full, from top to bottom.
pub open spec fn kept_rows(grid: Seq<Seq<bool>>, n: int) -> Seq<Seq<bool>>
    decreases n,
{
    if n < PLAY_TOP {
        Seq::empty()
    } else if row_full(grid[n]) {
        kept_rows(grid, n - 1)
    } else {
        kept_rows(grid, n - 1).push(grid[n])
    }
}

/// Number of full rows among the playable rows of `grid`.
pub open spec fn full_row_count(grid: Seq<Seq<bool>>) -> int {
    PLAY_BOTTOM - kept_rows(grid, PLAY_BOTTOM as int).len()
}

/// The grid after its full rows are removed. Within the playable columns, the
/// playable rows that are not full keep their order and sink to the bottom of
/// the playable area, and as many empty rows as were removed enter at its
/// top. The wall rows and the wall columns stay as they are.
pub open spec fn cleared(grid: Seq<Seq<bool>>) -> Seq<Seq<bool>> {
    let kept = kept_rows(grid, PLAY_BOTTOM as int);
    let gone = full_row_count(grid);
    Seq::new(
        FIELD_HEIGHT as nat,
        |r: int|
            if r < PLAY_TOP || r > PLAY_BOTTOM {
                grid[r]
            } else if r <= gone {
                framed(empty_row(), grid[r])
            } else {
                framed(kept[r - 1 - gone], grid[r])
            },
    )
}

/// A framed row is full exactly when the row inside the frame is.
proof fn lemma_framed_full(inner: Seq<bool>, frame: Seq<bool>)
    ensures
        row_full(framed(inner, frame)) == row_full(inner),
{
    if row_full(inner) {
        assert forall|c: int| PLAY_LEFT <= c <= PLAY_RIGHT implies #[trigger] framed(
            inner,
            frame,
        )[c] by {
            assert(inner[c]);
        }
    } else {
        let c = choose|c: int| PLAY_LEFT <= c <= PLAY_RIGHT && !#[trigger] inner[c];
        assert(!framed(inner, frame)[c]);
    }
}

/// The rows kept among the first `n` playable rows when row `full` is the one
/// full row of the playable area: all of them but that row.
proof fn lemma_kept_rows_single(grid: Seq<Seq<bool>>, full: int, n: int)
    requires
        0 <= n <= PLAY_BOTTOM,
        PLAY_TOP <= full <= PLAY_BOTTOM,
        forall|r: int| PLAY_TOP <= r <= PLAY_BOTTOM ==> (row_full(#[trigger] grid[r]) <==> r == full),
    ensures
        kept_rows(grid, n).len() == if n < full { n } else { n - 1 },
        forall|i: int|
            0 <= i < kept_rows(grid, n).len() ==> #[trigger] kept_rows(grid, n)[i] == if i < full
                - 1 {
                grid[i + 1]
            } else {
                grid[i + 2]
            },
    decreases n,
{
    if n >= PLAY_TOP {
        lemma_kept_rows_single(grid, full, n - 1);
        assert(row_full(grid[n]) <==> n == full);
    }
}

/// Where exactly one playable row is full, clearing removes that row alone.
/// Within the playable columns the rows above it move down by one and an
/// empty row enters at the top of the playable area; the wall columns of
/// those rows, the rows below the full row and the wall rows stay as they
/// are.
pub proof fn lemma_clear_single_full_row(grid: Seq<Seq<bool>>, full: int)
    requires
        shaped(grid),
        PLAY_TOP <= full <= PLAY_BOTTOM,
        forall|r: int| PLAY_TOP <= r <= PLAY_BOTTOM ==> (row_full(#[trigger] grid[r]) <==> r == full),
    ensures
        full_row_count(grid) == 1,
        cleared(grid).len() == FIELD_HEIGHT,
        cleared(grid)[PLAY_TOP as int] == framed(empty_row(), grid[PLAY_TOP as int]),
        forall|r: int|
            PLAY_TOP < r <= full ==> #[trigger] cleared(grid)[r] == framed(grid[r - 1], grid[r]),
        forall|r: int| full < r < FIELD_HEIGHT ==> #[trigger] cleared(grid)[r] == grid[r],
        cleared(grid)[0] == grid[0],
{
    lemma_kept_rows_single(grid, full, PLAY_BOTTOM as int);
    assert forall|r: int| full < r < FIELD_HEIGHT implies #[trigger] cleared(grid)[r] == grid[r] by {
        assert(framed(grid[r], grid[r]) =~= grid[r]);
    }
}

/// None of the rows kept among the first `n` playable rows is full.
proof fn lemma_kept_rows_not_full(grid: Seq<Seq<bool>>, n: int)
    requires
        0 <= n <= PLAY_BOTTOM,
    ensures
        kept_rows(grid, n).len() <= n,
        forall|i: int|
            0 <= i < kept_rows(grid, n).len() ==> !row_full(#[trigger] kept_rows(grid, n)[i]),
    decreases n,
{
    if n >= PLAY_TOP {
        lemma_kept_rows_not_full(grid, n - 1);
    }
}

/// After clearing, no playable row is full, and between none and all of the
/// playable rows were removed.
pub proof fn lemma_cleared_has_no_full_row(grid: Seq<Seq<bool>>)
    requires
        grid.len() == FIELD_HEIGHT,
    ensures
        0 <= full_row_count(grid) <= PLAY_BOTTOM,
        forall|r: int| PLAY_TOP <= r <= PLAY_BOTTOM ==> !row_full(#[trigger] cleared(grid)[r]),
{
    lemma_kept_rows_not_full(grid, PLAY_BOTTOM as int);
    assert(!empty_row()[PLAY_LEFT as int]);
    assert(!row_full(empty_row()));
    let kept = kept_rows(grid, PLAY_BOTTOM as int);
    let gone = full_row_count(grid);
    assert forall|r: int| PLAY_TOP <= r <= PLAY_BOTTOM implies !row_full(
        #[trigger] cleared(grid)[r],
    ) by {
        if r <= gone {
            lemma_framed_full(empty_row(), grid[r]);
        } else {
            lemma_framed_full(kept[r - 1 - gone], grid[r]);
        }
    }
}

/// Clearing changes no cell of a wall: outside the playable area every cell
/// of the grid stays as it is.
pub proof fn lemma_cleared_keeps_border(grid: Seq<Seq<bool>>)
    requires
        shaped(grid),
    ensures
        shaped(cleared(grid)),
        forall|r: int, c: int|
            in_grid(r, c) && !playable(r, c) ==> #[trigger] cleared(grid)[r][c] == grid[r][c],
{
}

/// Where no playable row is full, clearing changes nothing.
pub proof fn lemma_clear_without_full_row(grid: Seq<Seq<bool>>)
    requires
        shaped(grid),
        forall|r: int| PLAY_TOP <= r <= PLAY_BOTTOM ==> !row_full(#[trigger] grid[r]),
    ensures
        full_row_count(grid) == 0,
        cleared(grid) == grid,
{
    lemma_kept_rows_all(grid, PLAY_BOTTOM as int);
    assert forall|r: int| 0 <= r < FIELD_HEIGHT implies #[trigger] cleared(grid)[r] == grid[r] by {
        assert(framed(grid[r], grid[r]) =~= grid[r]);
    }
    assert(cleared(grid) =~= grid);
}

/// Where none of the first `n` playable rows is full, all of them are kept.
proof fn lemma_kept_rows_all(grid: Seq<Seq<bool>>, n: int)
    requires
        0 <= n <= PLAY_BOTTOM,
        forall|r: int| PLAY_TOP <= r <= n ==> !row_full(#[trigger] grid[r]),
    ensures
        kept_rows(grid, n).len() == n,
        forall|i: int| 0 <= i < n ==> #[trigger] kept_rows(grid, n)[i] == grid[i + 1],
    decreases n,
{
    if n >= PLAY_TOP {
        lemma_kept_rows_all(grid, n - 1);
    }
}

/// A field is what its grid shows: two fields with the same rows of cells are
/// the same field.
pub proof fn lemma_field_by_view(a: Field, b: Field)
    requires
        a@ == b@,
    ensures
        a == b,
{
    assert forall|r: int| 0 <= r < FIELD_HEIGHT implies a.cells[r] == b.cells[r] by {
        assert(a@[r] == b@[r]);
        assert(a.cells[r] =~= b.cells[r]);
    }
    assert(a.cells =~= b.cells);
}

impl Position {
    /// The anchor at which every block is spawned: top row, centred.
    pub open spec fn spawn_spec() -> Position {
        Position { x: SPAWN_X, y: SPAWN_Y }
    }

    /// The anchor one column to the left; at column 0 the anchor itself.
    pub open spec fn left_spec(self) -> Position {
        Position { x: if self.x > 0 { (self.x - 1) as usize } else { self.x }, y: self.y }
    }

    /// The anchor one column to the right; at the largest column the anchor
    /// itself.
    pub open spec fn right_spec(self) -> Position {
        Position { x: if self.x < usize::MAX { (self.x + 1) as usize } else { self.x }, y: self.y }
    }

    /// The anchor one row further down; at the largest row the anchor itself.
    pub open spec fn below_spec(self) -> Position {
        Position { x: self.x, y: if self.y < usize::MAX { (self.y + 1) as usize } else { self.y } }
    }

    /// The anchor one column to the left, staying put at column 0.
    pub fn left(&self) -> (pos: Position)
        ensures
            pos == self.left_spec(),
    {
        Position { x: self.x.saturating_sub(1), y: self.y }
    }

    /// The anchor one column to the right.
    pub fn right(&self) -> (pos: Position)
        ensures
            pos == self.right_spec(),
    {
        Position { x: self.x.saturating_add(1), y: self.y }
    }

    /// The anchor one row further down.
    pub fn below(&self) -> (pos: Position)
        ensures
            pos == self.below_spec(),
    {
        Position { x: self.x, y: self.y.saturating_add(1) }
    }

    /// The anchor at which every block is spawned.
    pub fn init() -> (pos: Position)
        ensures
            pos == Position::spawn_spec(),
    {
        Position { x: SPAWN_X, y: SPAWN_Y }
    }
}

impl View for Field {
    type V = Seq<Seq<bool>>;

    /// The grid as rows of cells.
    open spec fn view(&self) -> Seq<Seq<bool>> {
        Seq::new(FIELD_HEIGHT as nat, |r: int| self.cells[r]@)
    }
}

impl Field {
    /// Whether the cell (`row`, `col`) is settled. Outside the grid nothing is.
    pub open spec fn occupied_at(&self, row: int, col: int) -> bool {
        in_grid(row, col) && self.cells[row][col]
    }

    /// The field with no settled cell at all, not even in the walls.
    pub fn empty() -> (field: Field)
        ensures
            forall|r: int, c: int| !field.occupied_at(r, c),
    {
        Field { cells: [[false; FIELD_WIDTH]; FIELD_HEIGHT] }
    }

    /// The field of a new game: the cells of the walls are settled, and no
    /// other cell is.
    pub fn new() -> (field: Field)
        ensures
            forall|r: int, c: int| #[trigger] field.occupied_at(r, c) == is_wall(r, c),
    {
        let mut field = Field::empty();
        let mut row: usize = 0;
        while row < FIELD_HEIGHT
            invariant
                row <= FIELD_HEIGHT,
                forall|r: int, c: int|
                    #[trigger] field.occupied_at(r, c) == (is_wall(r, c) && r < row && (c == 0 || c
                        == FIELD_WIDTH - 1)),
            decreases FIELD_HEIGHT - row,
        {
            field.settle(row, 0);
            field.settle(row, FIELD_WIDTH - 1);
            row += 1;
        }
        let mut col: usize = 0;
        while col < FIELD_WIDTH
            invariant
                col <= FIELD_WIDTH,
                forall|r: int, c: int|
                    #[trigger] field.occupied_at(r, c) == (is_wall(r, c) && (c == 0 || c
                        == FIELD_WIDTH - 1 || c < col)),
            decreases FIELD_WIDTH - col,
        {
            field.settle(0, col);
            field.settle(FIELD_HEIGHT - 1, col);
            col += 1;
        }
        field
    }

    /// Reads a cell; outside the grid every cell reads as not settled.
    pub fn occupied(&self, row: usize, col: usize) -> (set: bool)
        ensures
            set == self.occupied_at(row as int, col as int),
    {
        row < FIELD_HEIGHT && col < FIELD_WIDTH && self.cells[row][col]
    }

    /// Marks one cell of the grid as settled.
    pub fn settle(&mut self, row: usize, col: usize)
        requires
            in_grid(row as int, col as int),
        ensures
            forall|r: int, c: int|
                #[trigger] final(self).occupied_at(r, c) == (old(self).occupied_at(r, c) || (r
                    == row && c == col)),
    {
        self.cells[row][col] = true;
    }

    /// Whether every playable column of `row` is settled.
    pub fn row_is_full(&self, row: usize) -> (full: bool)
        requires
            row < FIELD_HEIGHT,
        ensures
            full == row_full(self@[row as int]),
    {
        let mut x: usize = PLAY_LEFT;
        while x <= PLAY_RIGHT
            invariant
                row < FIELD_HEIGHT,
                PLAY_LEFT <= x <= PLAY_RIGHT + 1,
                forall|c: int| PLAY_LEFT <= c < x ==> #[trigger] self@[row as int][c],
            decreases PLAY_RIGHT + 1 - x,
        {
            if !self.cells[row][x] {
                assert(!self@[row as int][x as int]);
                return false;
            }
            x += 1;
        }
        true
    }

    /// Removes the playable row `row`: within the playable columns, every
    /// playable row above it moves down by one and the top playable row
    /// becomes empty. The wall columns stay as they are.
    fn remove_row(&mut self, row: usize)
        requires
            PLAY_TOP <= row <= PLAY_BOTTOM,
        ensures
            final(self)@[PLAY_TOP as int] == framed(empty_row(), old(self)@[PLAY_TOP as int]),
            forall|r: int|
                PLAY_TOP < r <= row ==> #[trigger] final(self)@[r] == framed(
                    old(self)@[r - 1],
                    old(self)@[r],
                ),
            forall|r: int|
                0 <= r < FIELD_HEIGHT && (r < PLAY_TOP || r > row) ==> #[trigger] final(self)@[r]
                    == old(self)@[r],
    {
        let ghost before = *self;
        let mut y: usize = row;
        while y > PLAY_TOP
            invariant
                PLAY_TOP <= y <= row <= PLAY_BOTTOM,
                forall|r: int|
                    y < r <= row ==> (#[trigger] self.cells@[r])@ == framed(
                        before.cells@[r - 1]@,
                        before.cells@[r]@,
                    ),
                forall|r: int|
                    0 <= r < FIELD_HEIGHT && (r <= y || r > row) ==> #[trigger] self.cells@[r]
                        == before.cells@[r],
            decreases y,
        {
            let mut moved = self.cells[y - 1];
            moved[0] = self.cells[y][0];
            moved[FIELD_WIDTH - 1] = self.cells[y][FIELD_WIDTH - 1];
            assert(moved@ =~= framed(before.cells@[y - 1]@, before.cells@[y as int]@));
            self.cells[y] = moved;
            y -= 1;
        }
        let mut top = [false; FIELD_WIDTH];
        top[0] = self.cells[PLAY_TOP][0];
        top[FIELD_WIDTH - 1] = self.cells[PLAY_TOP][FIELD_WIDTH - 1];
        assert(top@ =~= framed(empty_row(), before.cells@[PLAY_TOP as int]@));
        self.cells[PLAY_TOP] = top;
        assert forall|r: int| PLAY_TOP < r <= row implies #[trigger] self@[r] == framed(
            before@[r - 1],
            before@[r],
        ) by {
            assert(self.cells@[r]@ == framed(before.cells@[r - 1]@, before.cells@[r]@));
        }
        assert forall|r: int|
            0 <= r < FIELD_HEIGHT && (r < PLAY_TOP || r > row) implies #[trigger] self@[r]
            == before@[r] by {
            assert(self.cells@[r] == before.cells@[r]);
        }
    }

    /// Removes every full playable row, scanning from the top: within the
    /// playable columns the rows above a full row move down by one and an
    /// empty row enters at the top of the playable area. No cell of a wall
    /// changes. Returns the number of rows removed.
    pub fn clear_full_rows(&mut self) -> (count: usize)
        ensures
            final(self)@ == cleared(old(self)@),
            count == full_row_count(old(self)@),
            count <= PLAY_BOTTOM,
            forall|r: int, c: int|
                !playable(r, c) ==> #[trigger] final(self).occupied_at(r, c)
                    == old(self).occupied_at(r, c),
    {
        let ghost before = *self;
        let mut count: usize = 0;
        let mut y: usize = PLAY_TOP;
        while y <= PLAY_BOTTOM
            invariant
                PLAY_TOP <= y <= PLAY_BOTTOM + 1,
                count + kept_rows(before@, y - 1).len() == y - 1,
                forall|r: int|
                    0 <= r < FIELD_HEIGHT && (r < PLAY_TOP || r >= y) ==> #[trigger] self@[r]
                        == before@[r],
                forall|r: int|
                    PLAY_TOP <= r <= count ==> #[trigger] self@[r] == framed(
                        empty_row(),
                        before@[r],
                    ),
                forall|r: int|
                    count < r < y ==> #[trigger] self@[r] == framed(
                        kept_rows(before@, y - 1)[r - 1 - count],
                        before@[r],
                    ),
            decreases PLAY_BOTTOM + 1 - y,
        {
            let ghost prev = *self;
            let ghost kept = kept_rows(before@, y - 1);
            if self.row_is_full(y) {
                self.remove_row(y);
                proof {
                    assert(self@[PLAY_TOP as int] =~= framed(empty_row(), before@[PLAY_TOP as int]));
                    assert forall|r: int| PLAY_TOP < r <= count + 1 implies #[trigger] self@[r]
                        == framed(empty_row(), before@[r]) by {
                        assert(prev@[r - 1] == framed(empty_row(), before@[r - 1]));
                        assert(self@[r] == framed(prev@[r - 1], prev@[r]));
                        assert(framed(prev@[r - 1], prev@[r]) =~= framed(empty_row(), before@[r]));
                    }
                    assert forall|r: int| count + 1 < r < y + 1 implies #[trigger] self@[r]
                        == framed(kept[r - 2 - count], before@[r]) by {
                        assert(prev@[r - 1] == framed(kept[r - 2 - count], before@[r - 1]));
                        assert(self@[r] == framed(prev@[r - 1], prev@[r]));
                        assert(framed(prev@[r - 1], prev@[r]) =~= framed(
                            kept[r - 2 - count],
                            before@[r],
                        ));
                    }
                }
                count += 1;
            } else {
                proof {
                    assert(self@[y as int] =~= framed(before@[y as int], before@[y as int]));
                }
            }
            y += 1;
        }
        assert(self@ =~= cleared(before@));
        assert forall|r: int, c: int| !playable(r, c) implies #[trigger] self.occupied_at(r, c)
            == before.occupied_at(r, c) by {
            if in_grid(r, c) {
                assert(self@[r][c] == cleared(before@)[r][c]);
                assert(before@[r][c] == before.cells[r][c]);
                assert(self@[r][c] == self.cells[r][c]);
            }
        }
        count
    }

    /// Settles every cell that the block `kind` anchored at `pos` covers,
    /// whether it was settled before or not. Every cell of the block must lie
    /// within the field's bounds.
    pub fn overlay(&mut self, pos: &Position, kind: BlockKind)
        requires
            footprint_in_bounds(*pos, kind),
        ensures
            final(self)@ == merged(*old(self), *pos, kind),
            forall|r: int, c: int|
                #[trigger] final(self).occupied_at(r, c) == (old(self).occupied_at(r, c) || covers(
                    *pos,
                    kind,
                    r,
                    c,
                )),
    {
        let ghost before = *self;
        let mask = shape_of(kind);
        let mut y: usize = 0;
        while y < 4
            invariant
                y <= 4,
                footprint_in_bounds(*pos, kind),
                forall|r: int, c: int|
                    0 <= r < 4 && 0 <= c < 4 ==> mask[r][c] == mask_bit(kind, r, c),
                forall|r: int, c: int|
                    #[trigger] self.occupied_at(r, c) == (before.occupied_at(r, c) || (covers(
                        *pos,
                        kind,
                        r,
                        c,
                    ) && r - pos.y < y)),
            decreases 4 - y,
        {
            let mut x: usize = 0;
            while x < 4
                invariant
                    y < 4,
                    x <= 4,
                    footprint_in_bounds(*pos, kind),
                    forall|r: int, c: int|
                        0 <= r < 4 && 0 <= c < 4 ==> mask[r][c] == mask_bit(kind, r, c),
                    forall|r: int, c: int|
                        #[trigger] self.occupied_at(r, c) == (before.occupied_at(r, c) || (covers(
                            *pos,
                            kind,
                            r,
                            c,
                        ) && (r - pos.y < y || (r - pos.y == y && c - pos.x < x)))),
                decreases 4 - x,
            {
                if mask[y][x] {
                    assert(mask_bit(kind, y as int, x as int));
                    self.settle(pos.y + y, pos.x + x);
                }
                x += 1;
            }
            y += 1;
        }
        assert forall|r: int| 0 <= r < FIELD_HEIGHT implies #[trigger] self@[r] =~= merged(
            before,
            *pos,
            kind,
        )[r] by {
            assert forall|c: int| 0 <= c < FIELD_WIDTH implies self@[r][c] == merged(
                before,
                *pos,
                kind,
            )[r][c] by {
                assert(self.occupied_at(r, c) == self@[r][c]);
            }
        }
        assert(self@ =~= merged(before, *pos, kind));
    }

    /// Locks the block `kind` anchored at `pos` into the field: every cell
    /// that the block covers becomes settled, and no other cell changes. The
    /// block must not collide, so each cell it settles lies within the
    /// field's bounds and was not settled before.
    pub fn merge(&mut self, pos: &Position, kind: BlockKind)
        requires
            !collides(*old(self), *pos, kind),
        ensures
            final(self)@ == merged(*old(self), *pos, kind),
            forall|r: int, c: int|
                #[trigger] final(self).occupied_at(r, c) == (old(self).occupied_at(r, c) || covers(
                    *pos,
                    kind,
                    r,
                    c,
                )),
            forall|r: int, c: int|
                old(self).occupied_at(r, c) ==> #[trigger] final(self).occupied_at(r, c),
            forall|r: int, c: int|
                #[trigger] final(self).occupied_at(r, c) && !old(self).occupied_at(r, c)
                    ==> covers(*pos, kind, r, c) && in_grid(r, c),
            forall|r: int, c: int|
                covers(*pos, kind, r, c) ==> in_grid(r, c) && !#[trigger] old(self).occupied_at(
                    r,
                    c,
                ),
    {
        let ghost before = *self;
        assert forall|r: int, c: int| 0 <= r < 4 && 0 <= c < 4 && #[trigger] mask_bit(
            kind,
            r,
            c,
        ) implies in_grid(pos.y + r, pos.x + c) by {
            assert(!hits(before, *pos, kind, r, c));
        }
        assert forall|r: int, c: int| covers(*pos, kind, r, c) implies in_grid(r, c)
            && !#[trigger] before.occupied_at(r, c) by {
            assert(!hits(before, *pos, kind, r - pos.y, c - pos.x));
        }
        self.overlay(pos, kind);
    }
}

} // verus!
