//! The state that a driver holds between two frames, and what each of its
//! commands does to it. The driver reads input and draws; every decision on
//! the state is taken here.

use vstd::prelude::*;
use crate::cell::Cell;
use crate::grid::{Board, Grid};
use crate::patterns::{insert_pattern, overlaid};
use crate::rules::next_generation;

verus! {

/// What a driver can ask for.
#[derive(Debug, Clone, Copy, PartialEq, Eq)]
pub enum Command {
    /// End the run.
    Quit,
    /// Pause a running simulation, resume a paused one.
    TogglePause,
    /// Fill the grid with random cells and start counting generations anew.
    Randomize,
    /// Make every cell dead and start counting generations anew.
    Clear,
    /// Make the cell in column `x` of row `y` alive.
    Paint { x: usize, y: usize },
    /// Make the cell in column `x` of row `y` dead.
    Erase { x: usize, y: usize },
    /// Nothing was asked for.
    Idle,
}

/// The current grid, the number of generations it has gone through, and
/// whether the simulation is paused.
pub struct Simulation {
    pub grid: Grid,
    pub generation: u64,
    pub paused: bool,
}

impl Simulation {
    /// Whether `self` and `other` differ at most in their grids.
    pub open spec fn same_counters(self, other: Simulation) -> bool {
        self.generation == other.generation && self.paused == other.paused
    }

    /// Whether `self` is `before` with a new grid of the same dimensions,
    /// counting generations from zero again.
    pub open spec fn restarted_from(self, before: Simulation) -> bool {
        &&& self.generation == 0
        &&& self.paused == before.paused
        &&& self.grid@.width == before.grid@.width
        &&& self.grid@.height == before.grid@.height
    }

    /// Whether `after` is what `command` makes of `self`, and `running` says
    /// whether the run goes on.
    pub open spec fn handled(self, command: Command, after: Simulation, running: bool) -> bool {
        match command {
            Command::Quit => !running && after == self,
            Command::TogglePause => {
                &&& running
                &&& after.paused == !self.paused
                &&& after.generation == self.generation
                &&& after.grid == self.grid
            },
            Command::Randomize => running && after.restarted_from(self),
            Command::Clear => {
                &&& running
                &&& after.restarted_from(self)
                &&& after.grid@ == Board::empty(self.grid@.width, self.grid@.height)
            },
            Command::Paint { x, y } => {
                &&& running
                &&& after.same_counters(self)
                &&& after.grid@ == self.grid@.with_cell(x as int, y as int, Cell::Alive)
            },
            Command::Erase { x, y } => {
                &&& running
                &&& after.same_counters(self)
                &&& after.grid@ == self.grid@.with_cell(x as int, y as int, Cell::Dead)
            },
            Command::Idle => running && after == self,
        }
    }

    /// A running simulation at generation zero, on a random grid of the
    /// given dimensions.
    pub fn new(width: usize, height: usize) -> (simulation: Simulation)
        ensures
            simulation.grid@.width == width,
            simulation.grid@.height == height,
            simulation.generation == 0,
            !simulation.paused,
    {
        let mut grid = Grid::new(width, height);
        grid.randomize();
        Simulation { grid, generation: 0, paused: false }
    }

    pub fn toggle_pause(&mut self)
        ensures
            final(self).paused == !old(self).paused,
            final(self).generation == old(self).generation,
            final(self).grid == old(self).grid,
    {
        self.paused = !self.paused;
    }

    /// Fills the grid with random cells and sets the generation to zero.
    pub fn randomize(&mut self)
        ensures
            final(self).restarted_from(*old(self)),
    {
        self.grid.randomize();
        self.generation = 0;
    }

    /// Makes every cell dead and sets the generation to zero.
    pub fn clear(&mut self)
        ensures
            final(self).restarted_from(*old(self)),
            final(self).grid@ == Board::empty(old(self).grid@.width, old(self).grid@.height),
    {
        self.grid.clear();
        self.generation = 0;
    }

    /// Replaces the grid by one of the given dimensions that keeps the cells
    /// both have, and sets the generation to zero.
    pub fn resize(&mut self, width: usize, height: usize)
        ensures
            final(self).grid@ == old(self).grid@.resized(width as nat, height as nat),
            final(self).generation == 0,
            final(self).paused == old(self).paused,
    {
        self.grid = self.grid.resized(width, height);
        self.generation = 0;
    }

    /// Lays a pattern over the centre of the grid and sets the generation to
    /// zero.
    pub fn insert_pattern(&mut self, cells: &[(i32, i32)])
        ensures
            final(self).grid@ == overlaid(old(self).grid@, cells@),
            final(self).generation == 0,
            final(self).paused == old(self).paused,
    {
        insert_pattern(&mut self.grid, cells);
        self.generation = 0;
    }

    /// Carries out one command and says whether the run goes on: it ends on
    /// `Quit` alone.
    pub fn handle(&mut self, command: Command) -> (running: bool)
        ensures
            old(self).handled(command, *final(self), running),
    {
        match command {
            Command::Quit => {
                return false;
            },
            Command::TogglePause => {
                self.toggle_pause();
            },
            Command::Randomize => {
                self.randomize();
            },
            Command::Clear => {
                self.clear();
            },
            Command::Paint { x, y } => {
                self.grid.set(x, y, Cell::Alive);
            },
            Command::Erase { x, y } => {
                self.grid.set(x, y, Cell::Dead);
            },
            Command::Idle => {},
        }
        true
    }

    /// Moves a running simulation on by one generation and says that it did;
    /// leaves a paused one as it is. The generation counter must have room
    /// for the step.
    pub fn advance(&mut self) -> (stepped: bool)
        requires
            old(self).paused || old(self).generation < u64::MAX,
        ensures
            stepped == !old(self).paused,
            final(self).paused == old(self).paused,
            stepped ==> final(self).grid@ == old(self).grid@.step() && final(self).generation
                == old(self).generation + 1,
            !stepped ==> *final(self) == *old(self),
    {
        if self.paused {
            return false;
        }
        self.grid = next_generation(&self.grid);
        self.generation += 1;
        true
    }
}

} // verus!
