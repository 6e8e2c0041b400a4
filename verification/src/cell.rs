//! The state of a single grid position and the rule by which it changes.

use vstd::prelude::*;

verus! {

/// The state of one position of the grid.
#[derive(Debug, Clone, Copy, PartialEq, Eq, Structural)]
pub enum Cell {
    Alive,
    Dead,
}

/// The transition rule B3/S23 on plain values: whether a position is alive in
/// the next generation, given whether it is alive now and how many of its
/// eight neighbours are.
pub open spec fn lives_on(alive: bool, neighbors: int) -> bool {
    neighbors == 3 || (alive && neighbors == 2)
}

impl Cell {
    /// The cell that stands for "alive" or "not alive".
    pub open spec fn of(alive: bool) -> Cell {
        if alive {
            Cell::Alive
        } else {
            Cell::Dead
        }
    }

    /// The cell that follows `self` when `neighbor_count` of its neighbours
    /// are alive.
    pub open spec fn successor(self, neighbor_count: int) -> Cell {
        Cell::of(lives_on(self is Alive, neighbor_count))
    }

    pub fn is_alive(&self) -> (alive: bool)
        ensures
            alive == (*self is Alive),
    {
        matches!(self, Cell::Alive)
    }

    /// Applies the rule: a live cell with two or three live neighbours
    /// survives, a dead cell with exactly three live neighbours is born, and
    /// every other cell is dead in the next generation.
    pub fn next_state(&self, neighbor_count: u8) -> (next: Cell)
        ensures
            next == self.successor(neighbor_count as int),
            next is Alive <==> neighbor_count == 3 || (*self is Alive && neighbor_count == 2),
    {
        match (self, neighbor_count) {
            (Cell::Alive, 2) | (Cell::Alive, 3) => Cell::Alive,
            (Cell::Dead, 3) => Cell::Alive,
            _ => Cell::Dead,
        }
    }

    /// The cell for the outcome of a draw: alive on `true`, dead on `false`.
    pub fn from_draw(alive: bool) -> (cell: Cell)
        ensures
            cell == Cell::of(alive),
    {
        if alive {
            Cell::Alive
        } else {
            Cell::Dead
        }
    }
}

} // verus!
