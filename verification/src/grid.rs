//! The grid: an ordered sequence of cells, each empty or holding a sample.
//! It grows and shrinks by whole rows at its tail.

use vstd::prelude::*;
use crate::sample::Sample;
use crate::shared::{Operation, GRID_ROWS_MAX, GRID_ROWS_MIN};

verus! {

/// A row of `n` empty cells.
pub open spec fn spec_empty_row(n: nat) -> Seq<Option<Sample>> {
    Seq::new(n, |i: int| None::<Sample>)
}

/// Whether a grid of `len` cells may take one more row of `row_size` cells.
pub open spec fn spec_can_grow(len: nat, row_size: nat) -> bool {
    len + row_size <= GRID_ROWS_MAX * row_size
}

/// Whether a grid of `len` cells may lose its last row of `row_size` cells.
pub open spec fn spec_can_shrink(len: nat, row_size: nat) -> bool {
    len >= row_size + GRID_ROWS_MIN * row_size
}

/// The grid after one resize request. A request whose result would have
/// fewer than `GRID_ROWS_MIN` or more than `GRID_ROWS_MAX` rows changes
/// nothing. Growing appends a row of empty cells; shrinking drops the last
/// row, whatever it holds.
pub open spec fn spec_resize(
    grid: Seq<Option<Sample>>,
    op: Operation,
    row_size: nat,
) -> Seq<Option<Sample>> {
    match op {
        Operation::Inc => if spec_can_grow(grid.len(), row_size) {
            grid + spec_empty_row(row_size)
        } else {
            grid
        },
        Operation::Dec => if spec_can_shrink(grid.len(), row_size) {
            grid.subrange(0, grid.len() - row_size)
        } else {
            grid
        },
    }
}

/// Appends `n` empty cells.
fn push_empty_cells(grid: &mut Vec<Option<Sample>>, n: usize)
    ensures
        final(grid)@ == old(grid)@ + spec_empty_row(n as nat),
{
    let mut i: usize = 0;
    while i < n
        invariant
            i <= n,
            grid@ == old(grid)@ + spec_empty_row(i as nat),
        decreases n - i,
    {
        grid.push(None);
        i += 1;
    }
}

/// Grows or shrinks the grid by one row of `row_size` cells, or leaves it
/// alone where the row count would leave its bounds. Says whether the grid
/// changed its length.
pub fn resize_grid(grid: &mut Vec<Option<Sample>>, op: Operation, row_size: u16) -> (changed: bool)
    ensures
        final(grid)@ == spec_resize(old(grid)@, op, row_size as nat),
        changed == (final(grid)@.len() != old(grid)@.len()),
{
    let len = grid.len();
    let row: usize = row_size as usize;
    assert(GRID_ROWS_MAX * row == 20 * row && GRID_ROWS_MIN * row == row);
    let most: usize = (GRID_ROWS_MAX as usize) * row;
    let least: usize = (GRID_ROWS_MIN as usize) * row;
    match op {
        Operation::Inc => {
            if len <= most && most - len >= row {
                push_empty_cells(grid, row);
                row > 0
            } else {
                false
            }
        },
        Operation::Dec => {
            if len >= row && len - row >= least {
                grid.truncate(len - row);
                row > 0
            } else {
                false
            }
        },
    }
}

/// A copy of the grid, cell by cell.
pub fn clone_grid(grid: &Vec<Option<Sample>>) -> (copy: Vec<Option<Sample>>)
    ensures
        copy@ == grid@,
{
    let mut copy: Vec<Option<Sample>> = Vec::new();
    let mut i: usize = 0;
    while i < grid.len()
        invariant
            i <= grid.len(),
            copy@ == grid@.subrange(0, i as int),
        decreases grid.len() - i,
    {
        let cell = match &grid[i] {
            Some(sample) => Some(sample.clone()),
            None => None,
        };
        copy.push(cell);
        i += 1;
    }
    assert(grid@.subrange(0, grid@.len() as int) =~= grid@);
    copy
}

/// The grid with every cell emptied.
pub open spec fn spec_erased(grid: Seq<Option<Sample>>) -> Seq<Option<Sample>> {
    spec_empty_row(grid.len())
}

/// Empties every cell; the grid keeps its length.
pub fn erase_grid(grid: &mut Vec<Option<Sample>>)
    ensures
        final(grid)@ == spec_erased(old(grid)@),
{
    let n = grid.len();
    grid.clear();
    push_empty_cells(grid, n);
}

/// Whether a fresh grid holds the seed sample at position `i`.
pub open spec fn spec_is_seeded(i: int) -> bool {
    i == 0 || i == 2 || i == 4 || i == 6 || i == 8 || i == 10
}

/// Whether `grid` is `before` with the seed sample written into every seeded
/// position that it has.
pub open spec fn spec_seeded(before: Seq<Option<Sample>>, grid: Seq<Option<Sample>>) -> bool {
    &&& grid.len() == before.len()
    &&& forall|i: int|
        0 <= i < grid.len() ==> if spec_is_seeded(i) {
            grid[i] matches Some(s) && Sample::is_seed(s)
        } else {
            #[trigger] grid[i] == before[i]
        }
}

/// Writes the seed sample into the seeded positions of the grid.
pub fn fill_grid_initial(grid: &mut Vec<Option<Sample>>)
    ensures
        spec_seeded(old(grid)@, final(grid)@),
{
    let mut i: usize = 0;
    while i < grid.len()
        invariant
            i <= grid.len(),
            grid@.len() == old(grid)@.len(),
            forall|j: int|
                0 <= j < i ==> if spec_is_seeded(j) {
                    grid@[j] matches Some(s) && Sample::is_seed(s)
                } else {
                    #[trigger] grid@[j] == old(grid)@[j]
                },
            forall|j: int| i <= j < grid@.len() ==> #[trigger] grid@[j] == old(grid)@[j],
        decreases grid.len() - i,
    {
        if i == 0 || i == 2 || i == 4 || i == 6 || i == 8 || i == 10 {
            grid[i] = Some(Sample::seed());
        }
        i += 1;
    }
}

/// The grid that a first start shows: two rows, seeded.
pub fn default_grid(row_size: u16) -> (grid: Vec<Option<Sample>>)
    ensures
        spec_seeded(spec_empty_row(2 * row_size as nat), grid@),
{
    let mut grid: Vec<Option<Sample>> = Vec::new();
    let row: usize = row_size as usize;
    push_empty_cells(&mut grid, 2 * row);
    assert(grid@ =~= spec_empty_row(2 * row_size as nat));
    fill_grid_initial(&mut grid);
    grid
}

/// How many of the first `n` cells hold a sample.
pub open spec fn spec_filled_upto(grid: Seq<Option<Sample>>, n: int) -> nat
    decreases n,
{
    if n <= 0 {
        0
    } else {
        spec_filled_upto(grid, n - 1) + if grid[n - 1] is Some { 1nat } else { 0nat }
    }
}

/// How many cells hold a sample.
pub open spec fn spec_filled(grid: Seq<Option<Sample>>) -> nat {
    spec_filled_upto(grid, grid.len() as int)
}

/// Counts the cells that hold a sample.
pub fn filled_cells(grid: &Vec<Option<Sample>>) -> (count: usize)
    ensures
        count == spec_filled(grid@),
{
    let mut count: usize = 0;
    let mut i: usize = 0;
    while i < grid.len()
        invariant
            i <= grid.len(),
            count == spec_filled_upto(grid@, i as int),
            count <= i,
        decreases grid.len() - i,
    {
        if grid[i].is_some() {
            count += 1;
        }
        i += 1;
    }
    count
}

/// Starting from a grid of `rows` whole rows, with `rows` between the two
/// bounds: shrinking at the fewest rows and growing at the most rows change
/// nothing, and every other request changes the length by exactly one row
/// and leaves a grid of whole rows within the bounds.
pub proof fn lemma_resize_bounds(grid: Seq<Option<Sample>>, rows: nat, row_size: nat, op: Operation)
    requires
        row_size == 4 || row_size == 6,
        GRID_ROWS_MIN <= rows <= GRID_ROWS_MAX,
        grid.len() == rows * row_size,
    ensures
        op == Operation::Dec && rows == GRID_ROWS_MIN ==> spec_resize(grid, op, row_size) == grid,
        op == Operation::Inc && rows == GRID_ROWS_MAX ==> spec_resize(grid, op, row_size) == grid,
        op == Operation::Dec && rows > GRID_ROWS_MIN ==> spec_resize(grid, op, row_size).len()
            == (rows - 1) * row_size,
        op == Operation::Inc && rows < GRID_ROWS_MAX ==> spec_resize(grid, op, row_size).len()
            == (rows + 1) * row_size,
        op == Operation::Dec && rows > GRID_ROWS_MIN ==> spec_resize(grid, op, row_size)
            == grid.subrange(0, grid.len() - row_size),
        op == Operation::Inc && rows < GRID_ROWS_MAX ==> spec_resize(grid, op, row_size)
            == grid + spec_empty_row(row_size),
{
    assert(rows * row_size == if row_size == 4 { rows * 4 } else { rows * 6 });
    assert((rows + 1) * row_size == rows * row_size + row_size) by (nonlinear_arith);
    assert((rows - 1) * row_size == rows * row_size - row_size) by (nonlinear_arith);
}

} // verus!
