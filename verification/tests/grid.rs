use soundboard::grid::{
    clone_grid, default_grid, erase_grid, fill_grid_initial, filled_cells, resize_grid,
};
use soundboard::sample::Sample;
use soundboard::shared::{grid_row_size, Category, Operation, GRID_ROWS_MAX, GRID_ROWS_MIN};

fn empty_grid(len: usize) -> Vec<Option<Sample>> {
    let mut grid = Vec::new();
    for _ in 0..len {
        grid.push(None);
    }
    grid
}

#[test]
fn row_size_follows_the_device() {
    assert_eq!(grid_row_size(true), 4);
    assert_eq!(grid_row_size(false), 6);
}

#[test]
fn row_bounds_are_one_and_twenty() {
    assert_eq!(GRID_ROWS_MIN, 1);
    assert_eq!(GRID_ROWS_MAX, 20);
}

#[test]
fn resize_stops_at_one_row() {
    let mut grid = default_grid(6);
    assert_eq!(grid.len(), 12);
    assert!(resize_grid(&mut grid, Operation::Dec, 6));
    assert_eq!(grid.len(), 6);
    assert!(!resize_grid(&mut grid, Operation::Dec, 6));
    assert_eq!(grid.len(), 6);
}

#[test]
fn resize_stops_at_twenty_rows() {
    for row_size in [4u16, 6u16] {
        let mut grid = empty_grid(row_size as usize);
        for rows in 1..20usize {
            assert_eq!(grid.len(), rows * row_size as usize);
            assert!(resize_grid(&mut grid, Operation::Inc, row_size));
        }
        assert_eq!(grid.len(), 20 * row_size as usize);
        assert!(!resize_grid(&mut grid, Operation::Inc, row_size));
        assert_eq!(grid.len(), 20 * row_size as usize);
    }
}

#[test]
fn resize_changes_length_by_one_row_everywhere_between() {
    for row_size in [4u16, 6u16] {
        for rows in 1..=20usize {
            let len = rows * row_size as usize;
            let mut grown = empty_grid(len);
            let changed = resize_grid(&mut grown, Operation::Inc, row_size);
            assert_eq!(changed, rows < 20);
            assert_eq!(grown.len(), if rows < 20 { len + row_size as usize } else { len });
            let mut shrunk = empty_grid(len);
            let changed = resize_grid(&mut shrunk, Operation::Dec, row_size);
            assert_eq!(changed, rows > 1);
            assert_eq!(shrunk.len(), if rows > 1 { len - row_size as usize } else { len });
        }
    }
}

#[test]
fn growing_appends_empty_cells_and_keeps_the_rest() {
    let mut grid = default_grid(4);
    let before = clone_grid(&grid);
    assert!(resize_grid(&mut grid, Operation::Inc, 4));
    assert_eq!(grid.len(), 12);
    for i in 0..8 {
        assert_eq!(grid[i], before[i]);
    }
    for i in 8..12 {
        assert!(grid[i].is_none());
    }
}

#[test]
fn shrinking_drops_the_last_row_even_when_filled() {
    let mut grid = empty_grid(8);
    grid[7] = Some(Sample::seed());
    grid[1] = Some(Sample::seed());
    assert!(resize_grid(&mut grid, Operation::Dec, 4));
    assert_eq!(grid.len(), 4);
    assert!(grid[1].is_some());
    assert_eq!(filled_cells(&grid), 1);
}

#[test]
fn resize_of_an_empty_grid_is_harmless() {
    let mut grid = empty_grid(0);
    assert!(!resize_grid(&mut grid, Operation::Dec, 6));
    assert_eq!(grid.len(), 0);
    assert!(!resize_grid(&mut grid, Operation::Dec, 0));
    assert!(!resize_grid(&mut grid, Operation::Inc, 0));
    assert_eq!(grid.len(), 0);
}

#[test]
fn resize_refuses_what_would_leave_the_bounds() {
    let mut grid = empty_grid(130);
    assert!(!resize_grid(&mut grid, Operation::Inc, 6));
    assert_eq!(grid.len(), 130);
    let mut grid = empty_grid(5);
    assert!(!resize_grid(&mut grid, Operation::Dec, 4));
    assert_eq!(grid.len(), 5);
}

#[test]
fn default_grid_is_seeded_on_even_cells() {
    let grid = default_grid(6);
    assert_eq!(grid.len(), 12);
    for i in 0..12 {
        assert_eq!(grid[i].is_some(), i % 2 == 0, "cell {}", i);
    }
    let seed = grid[0].as_ref().unwrap();
    assert_eq!(seed.id, "boom_hit_1");
    assert_eq!(seed.filename, "hit_1");
    assert_eq!(seed.filepath, "/public/sounds/boom/hit_1.mp3");
    assert_eq!(seed.category, Category::Boom);
    assert_eq!(seed.duration_us, 325_670);
    let small = default_grid(4);
    assert_eq!(small.len(), 8);
    assert_eq!(filled_cells(&small), 4);
}

#[test]
fn seeding_stops_at_the_eleventh_cell() {
    let mut grid = empty_grid(16);
    fill_grid_initial(&mut grid);
    for i in 0..16 {
        assert_eq!(grid[i].is_some(), i % 2 == 0 && i <= 10, "cell {}", i);
    }
    assert_eq!(filled_cells(&grid), 6);
}

#[test]
fn erase_keeps_the_length() {
    let mut grid = default_grid(6);
    erase_grid(&mut grid);
    assert_eq!(grid.len(), 12);
    assert_eq!(filled_cells(&grid), 0);
}

#[test]
fn clone_grid_copies_every_field() {
    let grid = default_grid(6);
    let copy = clone_grid(&grid);
    assert_eq!(copy.len(), grid.len());
    for i in 0..grid.len() {
        match (&grid[i], &copy[i]) {
            (Some(a), Some(b)) => {
                assert_eq!(a.id, b.id);
                assert_eq!(a.filename, b.filename);
                assert_eq!(a.filepath, b.filepath);
                assert_eq!(a.category, b.category);
                assert_eq!(a.duration_us, b.duration_us);
            }
            (None, None) => {}
            _ => panic!("cell {} differs", i),
        }
    }
}
