use blockfall::block::{shape_of, BlockKind, KIND_COUNT, MASK_SIZE};
use blockfall::collision::{footprint_fits, is_collision};
use blockfall::field::{
    Field, Position, FIELD_HEIGHT, FIELD_WIDTH, PLAY_BOTTOM, PLAY_LEFT, PLAY_RIGHT, PLAY_TOP,
};

const KINDS: [BlockKind; 7] = [
    BlockKind::I,
    BlockKind::O,
    BlockKind::S,
    BlockKind::Z,
    BlockKind::J,
    BlockKind::L,
    BlockKind::T,
];

fn in_grid(row: usize, col: usize) -> bool {
    row < FIELD_HEIGHT && col < FIELD_WIDTH
}

fn is_wall(row: usize, col: usize) -> bool {
    in_grid(row, col)
        && (row == 0 || row == FIELD_HEIGHT - 1 || col == 0 || col == FIELD_WIDTH - 1)
}

fn footprint(pos: Position, kind: BlockKind) -> Vec<(usize, usize)> {
    let mask = shape_of(kind);
    let mut cells = Vec::new();
    for r in 0..MASK_SIZE {
        for c in 0..MASK_SIZE {
            if mask[r][c] {
                cells.push((pos.y + r, pos.x + c));
            }
        }
    }
    cells
}

fn fill_row(field: &mut Field, row: usize) {
    for col in PLAY_LEFT..=PLAY_RIGHT {
        field.settle(row, col);
    }
}

#[test]
fn dimensions_are_ten_by_twenty_inside_the_walls() {
    assert_eq!(FIELD_WIDTH, 12);
    assert_eq!(FIELD_HEIGHT, 22);
    assert_eq!(PLAY_RIGHT - PLAY_LEFT + 1, 10);
    assert_eq!(PLAY_BOTTOM - PLAY_TOP + 1, 20);
}

#[test]
fn every_shape_has_four_cells() {
    for kind in KINDS {
        assert_eq!(footprint(Position { x: 0, y: 0 }, kind).len(), 4);
    }
}

#[test]
fn shapes_are_the_catalog() {
    let o = shape_of(BlockKind::O);
    assert_eq!(
        o,
        [
            [false, false, false, false],
            [false, true, true, false],
            [false, true, true, false],
            [false, false, false, false],
        ]
    );
    let i = shape_of(BlockKind::I);
    assert_eq!(i[1], [true, true, true, true]);
    assert_eq!(i[0], [false; 4]);
    assert_eq!(i[2], [false; 4]);
    let t = shape_of(BlockKind::T);
    assert_eq!(t[1], [false, true, false, false]);
    assert_eq!(t[2], [true, true, true, false]);
    let s = shape_of(BlockKind::S);
    assert_eq!(s[1], [false, true, true, false]);
    assert_eq!(s[2], [true, true, false, false]);
    let z = shape_of(BlockKind::Z);
    assert_eq!(z[1], [true, true, false, false]);
    assert_eq!(z[2], [false, true, true, false]);
    let j = shape_of(BlockKind::J);
    assert_eq!(j[1], [true, false, false, false]);
    assert_eq!(j[2], [true, true, true, false]);
    let l = shape_of(BlockKind::L);
    assert_eq!(l[1], [false, false, true, false]);
    assert_eq!(l[2], [true, true, true, false]);
}

#[test]
fn kinds_and_indices_correspond() {
    for (i, kind) in KINDS.iter().enumerate() {
        assert_eq!(kind.index() as usize, i);
        assert_eq!(BlockKind::from_index(i as u8), Some(*kind));
    }
    assert_eq!(KIND_COUNT, 7);
    assert_eq!(BlockKind::from_index(7), None);
    assert_eq!(BlockKind::from_index(255), None);
}

#[test]
fn a_new_field_has_settled_walls_and_nothing_else() {
    let field = Field::new();
    let mut walls = 0;
    for r in 0..FIELD_HEIGHT + 1 {
        for c in 0..FIELD_WIDTH + 1 {
            assert_eq!(field.occupied(r, c), is_wall(r, c));
            if is_wall(r, c) {
                walls += 1;
            }
        }
    }
    assert_eq!(walls, 64);
    assert!(field.occupied(0, 0));
    assert!(field.occupied(21, 5));
    assert!(field.occupied(7, 11));
    assert!(!field.occupied(1, 1));
    assert!(!field.occupied(20, 10));
}

#[test]
fn an_empty_field_has_no_settled_cell() {
    let field = Field::empty();
    for r in 0..FIELD_HEIGHT {
        for c in 0..FIELD_WIDTH {
            assert!(!field.occupied(r, c));
        }
    }
    assert_eq!(field.cells, [[false; FIELD_WIDTH]; FIELD_HEIGHT]);
}

#[test]
fn occupied_reads_cells_and_nothing_outside_the_grid() {
    let mut field = Field::empty();
    assert!(!field.occupied(5, 5));
    field.settle(5, 5);
    assert!(field.occupied(5, 5));
    assert!(!field.occupied(5, 6));
    assert!(!field.occupied(FIELD_HEIGHT, 5));
    assert!(!field.occupied(5, FIELD_WIDTH));
    assert!(!field.occupied(usize::MAX, usize::MAX));
}

#[test]
fn a_cell_outside_the_bounds_collides() {
    for field in [Field::empty(), Field::new()] {
        for kind in KINDS {
            for y in 0..FIELD_HEIGHT + 2 {
                for x in 0..FIELD_WIDTH + 2 {
                    let pos = Position { x, y };
                    let outside = footprint(pos, kind).iter().any(|&(r, c)| !in_grid(r, c));
                    if outside {
                        assert!(is_collision(&field, &pos, kind));
                    }
                }
            }
        }
        assert!(is_collision(&field, &Position { x: usize::MAX, y: 3 }, BlockKind::O));
        assert!(is_collision(&field, &Position { x: 3, y: usize::MAX }, BlockKind::I));
    }
}

#[test]
fn the_empty_field_collides_with_nothing_inside_the_bounds() {
    let field = Field::empty();
    let mut free = 0;
    for kind in KINDS {
        for y in 0..FIELD_HEIGHT + 2 {
            for x in 0..FIELD_WIDTH + 2 {
                let pos = Position { x, y };
                let inside = footprint(pos, kind).iter().all(|&(r, c)| in_grid(r, c));
                assert_eq!(is_collision(&field, &pos, kind), !inside);
                assert_eq!(footprint_fits(&pos, kind), inside);
                if inside {
                    free += 1;
                }
            }
        }
    }
    assert!(free > 0);
    // The whole mask inside the grid, and set cells on the border columns.
    assert!(!is_collision(&field, &Position { x: 0, y: 0 }, BlockKind::I));
    assert!(!is_collision(&field, &Position { x: 9, y: 0 }, BlockKind::O));
    // Only an unset mask row lies off the grid.
    assert!(!is_collision(&field, &Position { x: 4, y: 19 }, BlockKind::O));
    assert!(is_collision(&field, &Position { x: 4, y: 20 }, BlockKind::O));
    assert!(is_collision(&field, &Position { x: 10, y: 0 }, BlockKind::O));
}

#[test]
fn a_block_on_a_wall_collides() {
    let field = Field::new();
    // I covers columns x..x+3 of row y+1.
    assert!(is_collision(&field, &Position { x: 0, y: 0 }, BlockKind::I));
    assert!(!is_collision(&field, &Position { x: 1, y: 0 }, BlockKind::I));
    assert!(!is_collision(&field, &Position { x: 7, y: 0 }, BlockKind::I));
    assert!(is_collision(&field, &Position { x: 8, y: 0 }, BlockKind::I));
    assert!(!is_collision(&field, &Position { x: 1, y: 19 }, BlockKind::I));
    assert!(is_collision(&field, &Position { x: 1, y: 20 }, BlockKind::I));
    assert!(is_collision(&field, &Position { x: 9, y: 0 }, BlockKind::O));
    for kind in KINDS {
        for y in 0..FIELD_HEIGHT {
            for x in 0..FIELD_WIDTH {
                let pos = Position { x, y };
                let cells = footprint(pos, kind);
                let free = cells.iter().all(|&(r, c)| in_grid(r, c) && !is_wall(r, c));
                assert_eq!(is_collision(&field, &pos, kind), !free);
            }
        }
    }
}

#[test]
fn a_settled_cell_under_the_block_collides() {
    let mut field = Field::new();
    field.settle(10, 6);
    // O at (4, 8) covers rows 9-10, columns 5-6.
    assert!(is_collision(&field, &Position { x: 4, y: 8 }, BlockKind::O));
    assert!(is_collision(&field, &Position { x: 5, y: 9 }, BlockKind::O));
    assert!(!is_collision(&field, &Position { x: 4, y: 7 }, BlockKind::O));
    assert!(!is_collision(&field, &Position { x: 6, y: 8 }, BlockKind::O));
    // A settled cell under an unset mask cell is no collision.
    assert!(!is_collision(&field, &Position { x: 6, y: 9 }, BlockKind::O));
}

#[test]
fn merge_sets_the_covered_cells_and_no_other() {
    let mut field = Field::new();
    field.settle(20, 1);
    field.settle(19, 2);
    let before = field;
    let pos = Position { x: 2, y: 18 };
    assert!(!is_collision(&field, &pos, BlockKind::T));
    field.merge(&pos, BlockKind::T);
    let covered = footprint(pos, BlockKind::T);
    assert_eq!(covered, vec![(19, 3), (20, 2), (20, 3), (20, 4)]);
    for r in 0..FIELD_HEIGHT {
        for c in 0..FIELD_WIDTH {
            let was = before.occupied(r, c);
            let is = field.occupied(r, c);
            assert_eq!(is, was || covered.contains(&(r, c)));
            if was {
                assert!(is);
            }
            if is && !was {
                assert!(covered.contains(&(r, c)));
                assert!(in_grid(r, c));
            }
        }
    }
}

#[test]
fn overlay_settles_the_covered_cells_on_settled_cells_too() {
    let mut field = Field::new();
    field.settle(2, 5);
    let before = field;
    let pos = Position { x: 4, y: 0 };
    assert!(is_collision(&field, &pos, BlockKind::T));
    assert!(footprint_fits(&pos, BlockKind::T));
    field.overlay(&pos, BlockKind::T);
    let covered = footprint(pos, BlockKind::T);
    for r in 0..FIELD_HEIGHT {
        for c in 0..FIELD_WIDTH {
            assert_eq!(field.occupied(r, c), before.occupied(r, c) || covered.contains(&(r, c)));
        }
    }
}

#[test]
fn one_full_row_is_removed_and_the_rows_above_move_down() {
    let mut field = Field::new();
    fill_row(&mut field, 15);
    field.settle(14, 3);
    field.settle(13, 4);
    field.settle(1, 9);
    field.settle(16, 2);
    field.settle(20, 7);
    let before = field;
    assert!(field.row_is_full(15));
    assert!(!field.row_is_full(14));
    let count = field.clear_full_rows();
    assert_eq!(count, 1);
    for c in 0..FIELD_WIDTH {
        assert_eq!(field.cells[1][c], is_wall(1, c));
    }
    for r in 2..=15 {
        assert_eq!(field.cells[r], before.cells[r - 1]);
    }
    for r in 16..FIELD_HEIGHT {
        assert_eq!(field.cells[r], before.cells[r]);
    }
    assert_eq!(field.cells[0], before.cells[0]);
    assert!(field.occupied(15, 3));
    assert!(field.occupied(14, 4));
    assert!(field.occupied(2, 9));
    assert!(!field.occupied(1, 9));
}

#[test]
fn a_full_top_row_leaves_an_empty_top_row_between_the_walls() {
    let mut field = Field::new();
    fill_row(&mut field, 1);
    field.settle(2, 5);
    let count = field.clear_full_rows();
    assert_eq!(count, 1);
    let mut expected = Field::new();
    expected.settle(2, 5);
    assert_eq!(field, expected);
    assert!(field.occupied(1, 0));
    assert!(field.occupied(1, 11));
    assert!(!field.occupied(1, 1));
}

#[test]
fn several_full_rows_are_removed_in_one_pass() {
    let mut field = Field::new();
    fill_row(&mut field, 20);
    fill_row(&mut field, 19);
    fill_row(&mut field, 17);
    field.settle(18, 1);
    field.settle(16, 10);
    let count = field.clear_full_rows();
    assert_eq!(count, 3);
    let mut expected = Field::new();
    expected.settle(20, 1);
    expected.settle(19, 10);
    assert_eq!(field, expected);
}

#[test]
fn without_a_full_row_nothing_changes() {
    let mut field = Field::new();
    for col in PLAY_LEFT..PLAY_RIGHT {
        field.settle(20, col);
    }
    field.settle(3, 3);
    let before = field;
    assert_eq!(field.clear_full_rows(), 0);
    assert_eq!(field, before);
}

#[test]
fn clearing_leaves_the_cells_of_the_border_as_they_are() {
    // Border cells that differ from row to row stay where they are.
    let mut field = Field::empty();
    field.settle(9, 0);
    field.settle(10, 11);
    field.settle(0, 3);
    field.settle(21, 3);
    field.settle(9, 4);
    fill_row(&mut field, 10);
    assert_eq!(field.clear_full_rows(), 1);
    let mut expected = Field::empty();
    expected.settle(9, 0);
    expected.settle(10, 11);
    expected.settle(0, 3);
    expected.settle(21, 3);
    expected.settle(10, 4);
    assert_eq!(field, expected);
}

#[test]
fn the_wall_rows_are_never_cleared() {
    let mut field = Field::new();
    assert!(field.row_is_full(0));
    assert!(field.row_is_full(21));
    assert!(!field.row_is_full(1));
    assert_eq!(field.clear_full_rows(), 0);
    assert_eq!(field, Field::new());
}

#[test]
fn positions_step_by_one_and_stop_at_the_ends() {
    let pos = Position { x: 4, y: 0 };
    assert_eq!(pos.left(), Position { x: 3, y: 0 });
    assert_eq!(pos.right(), Position { x: 5, y: 0 });
    assert_eq!(pos.below(), Position { x: 4, y: 1 });
    assert_eq!(Position { x: 0, y: 2 }.left(), Position { x: 0, y: 2 });
    assert_eq!(Position { x: usize::MAX, y: 2 }.right(), Position { x: usize::MAX, y: 2 });
    assert_eq!(Position { x: 1, y: usize::MAX }.below(), Position { x: 1, y: usize::MAX });
    assert_eq!(Position::init(), Position { x: 4, y: 0 });
}
