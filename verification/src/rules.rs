//! The rule engine: counting live neighbours and advancing a whole grid by
//! one generation.

use vstd::prelude::*;
use crate::cell::{lives_on, Cell};
use crate::grid::{precedes, Board, Grid};

verus! {

impl Board {
    /// One if the cell at `(x, y)` is alive, zero if it is dead or off the
    /// board.
    pub open spec fn live(self, x: int, y: int) -> int {
        if self.is_alive(x, y) {
            1
        } else {
            0
        }
    }

    /// The number of live cells among the eight positions around `(x, y)`.
    pub open spec fn live_neighbors(self, x: int, y: int) -> int {
        self.live(x - 1, y - 1) + self.live(x, y - 1) + self.live(x + 1, y - 1)
            + self.live(x - 1, y) + self.live(x + 1, y)
            + self.live(x - 1, y + 1) + self.live(x, y + 1) + self.live(x + 1, y + 1)
    }

    /// Whether the cell at `(x, y)` is alive in the next generation. Every
    /// neighbour is read from `self`, the current generation.
    pub open spec fn alive_next(self, x: int, y: int) -> bool {
        self.in_bounds(x, y) && lives_on(self.is_alive(x, y), self.live_neighbors(x, y))
    }

    /// The next generation: a board of the same dimensions on which exactly
    /// the positions of `alive_next` are alive.
    pub open spec fn step(self) -> Board {
        Board {
            width: self.width,
            height: self.height,
            alive: Set::new(|p: (int, int)| self.alive_next(p.0, p.1)),
        }
    }
}

/// What the neighbour at offset `(i, j)` adds to a count that has walked
/// the neighbourhood up to `(dx, dy)`.
spec fn share(board: Board, x: int, y: int, i: int, j: int, dx: int, dy: int) -> int {
    if precedes(i, j, dx, dy) {
        board.live(x + i, y + j)
    } else {
        0
    }
}

/// The live neighbours of `(x, y)` among the offsets before `(dx, dy)`.
spec fn counted(board: Board, x: int, y: int, dx: int, dy: int) -> int {
    share(board, x, y, -1, -1, dx, dy) + share(board, x, y, 0, -1, dx, dy)
        + share(board, x, y, 1, -1, dx, dy) + share(board, x, y, -1, 0, dx, dy)
        + share(board, x, y, 1, 0, dx, dy) + share(board, x, y, -1, 1, dx, dy)
        + share(board, x, y, 0, 1, dx, dy) + share(board, x, y, 1, 1, dx, dy)
}

/// Counts the live cells among the eight neighbours of `(x, y)`. A neighbour
/// off the grid counts as dead, so a cell on an edge or in a corner has fewer
/// neighbours that can be alive.
pub fn count_neighbors(grid: &Grid, x: usize, y: usize) -> (count: u8)
    ensures
        count == grid@.live_neighbors(x as int, y as int),
        count <= 8,
{
    let width = grid.width();
    let height = grid.height();
    let mut count = 0u8;
    for dy in -1isize..2
        invariant
            width == grid@.width,
            height == grid@.height,
            count == counted(grid@, x as int, y as int, -1, dy as int),
    {
        for dx in -1isize..2
            invariant
                -1 <= dy <= 1,
                width == grid@.width,
                height == grid@.height,
                count == counted(grid@, x as int, y as int, dx as int, dy as int),
        {
            if !(dx == 0 && dy == 0) {
                match (x.checked_add_signed(dx), y.checked_add_signed(dy)) {
                    (Some(nx), Some(ny)) => {
                        if nx < width && ny < height && grid.get(nx, ny).is_alive() {
                            count += 1;
                        }
                    },
                    _ => {},
                }
            }
        }
    }
    count
}

/// Computes the next generation into a new grid of the same dimensions.
/// Every cell of the result is derived from `grid` alone, which is not
/// changed.
pub fn next_generation(grid: &Grid) -> (next: Grid)
    ensures
        next@ == grid@.step(),
{
    let width = grid.width();
    let height = grid.height();
    let mut new_grid = Grid::new(width, height);
    for y in 0..height
        invariant
            width == grid@.width,
            height == grid@.height,
            new_grid@.width == width,
            new_grid@.height == height,
            forall|p: (int, int)|
                new_grid@.alive.contains(p) <==> precedes(p.0, p.1, 0, y as int)
                    && grid@.alive_next(p.0, p.1),
    {
        for x in 0..width
            invariant
                y < height,
                width == grid@.width,
                height == grid@.height,
                new_grid@.width == width,
                new_grid@.height == height,
                forall|p: (int, int)|
                    new_grid@.alive.contains(p) <==> precedes(p.0, p.1, x as int, y as int)
                        && grid@.alive_next(p.0, p.1),
        {
            let neighbors = count_neighbors(grid, x, y);
            let cell = grid.get(x, y);
            let new_cell = cell.next_state(neighbors);
            new_grid.set(x, y, new_cell);
        }
    }
    assert(new_grid@.alive =~= grid@.step().alive);
    new_grid
}

/// A generation never changes the dimensions, and records no live cell off
/// the board.
pub proof fn lemma_step_keeps_shape(board: Board)
    ensures
        board.step().width == board.width,
        board.step().height == board.height,
        board.step().wf(),
{
}

/// A cell of the next generation is alive exactly if the rule says so of the
/// cell and its live neighbours in the current one; off the board it is dead.
pub proof fn lemma_step_cell(board: Board, x: int, y: int)
    ensures
        board.step().cell(x, y) == if board.in_bounds(x, y) {
            board.cell(x, y).successor(board.live_neighbors(x, y))
        } else {
            Cell::Dead
        },
{
}

/// A board without a live cell has none in the next generation either, and
/// keeps its dimensions.
pub proof fn lemma_dead_board_stays_dead(board: Board)
    requires
        forall|x: int, y: int| !board.is_alive(x, y),
    ensures
        board.step() == Board::empty(board.width, board.height),
{
    assert(board.step().alive =~= Set::empty());
}

/// A cell has at most eight live neighbours; a cell on an edge of the board
/// has at most five, and a cell in a corner at most three.
pub proof fn lemma_neighbor_bounds(board: Board, x: int, y: int)
    requires
        board.in_bounds(x, y),
    ensures
        0 <= board.live_neighbors(x, y) <= 8,
        x == 0 || x == board.width - 1 || y == 0 || y == board.height - 1
            ==> board.live_neighbors(x, y) <= 5,
        (x == 0 || x == board.width - 1) && (y == 0 || y == board.height - 1)
            ==> board.live_neighbors(x, y) <= 3,
{
}

} // verus!
