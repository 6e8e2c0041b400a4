//! The grid: a fixed rectangle of cells whose surroundings count as dead.

use vstd::prelude::*;
use rand::rngs::ThreadRng;
use crate::cell::Cell;
use crate::random::{gen_ratio, thread_rng};

verus! {

/// A randomized cell is alive with a chance of `LIVE_CHANCE_NUMERATOR` in
/// `LIVE_CHANCE_DENOMINATOR`: three in ten.
pub const LIVE_CHANCE_NUMERATOR: u32 = 3;

pub const LIVE_CHANCE_DENOMINATOR: u32 = 10;

/// Whether position `(i, j)` comes before `(x, y)` when a board is walked row
/// by row, each row from the left.
pub open spec fn precedes(i: int, j: int, x: int, y: int) -> bool {
    j < y || (j == y && i < x)
}

/// What a grid is, mathematically: its dimensions and the positions of its
/// live cells. Every position that is not in `alive` is dead, and so is every
/// position outside the rectangle, whatever `alive` holds.
pub struct Board {
    pub width: nat,
    pub height: nat,
    pub alive: Set<(int, int)>,
}

impl Board {
    /// The one bounds predicate: `(x, y)` lies in `[0, width) x [0, height)`.
    pub open spec fn in_bounds(self, x: int, y: int) -> bool {
        0 <= x < self.width && 0 <= y < self.height
    }

    /// No position outside the rectangle is recorded as alive.
    pub open spec fn wf(self) -> bool {
        forall|p: (int, int)| self.alive.contains(p) ==> self.in_bounds(p.0, p.1)
    }

    /// Whether the cell at `(x, y)` is alive; false outside the rectangle.
    pub open spec fn is_alive(self, x: int, y: int) -> bool {
        self.in_bounds(x, y) && self.alive.contains((x, y))
    }

    /// The cell at `(x, y)`; `Dead` outside the rectangle.
    pub open spec fn cell(self, x: int, y: int) -> Cell {
        Cell::of(self.is_alive(x, y))
    }

    /// The board of the given dimensions on which every cell is dead.
    pub open spec fn empty(width: nat, height: nat) -> Board {
        Board { width, height, alive: Set::empty() }
    }

    /// The board of the given dimensions that agrees with `self` wherever both
    /// have a cell, and is dead elsewhere.
    pub open spec fn resized(self, width: nat, height: nat) -> Board {
        Board {
            width,
            height,
            alive: Set::new(
                |p: (int, int)| 0 <= p.0 < width && 0 <= p.1 < height && self.is_alive(p.0, p.1),
            ),
        }
    }

    /// Whether `draws` holds a draw for the cell at `(x, y)`: entry `x` of its
    /// row `y`.
    pub open spec fn has_draw(draws: Seq<Seq<bool>>, x: int, y: int) -> bool {
        0 <= y < draws.len() && 0 <= x < draws[y].len()
    }

    /// Whether `draws` holds exactly one draw for each cell of the board:
    /// `height` rows of `width` draws.
    pub open spec fn covered_by(self, draws: Seq<Seq<bool>>) -> bool {
        &&& draws.len() == self.height
        &&& forall|y: int| 0 <= y < draws.len() ==> (#[trigger] draws[y]).len() == self.width
    }

    /// The board after each cell was replaced by the cell of its draw: the
    /// cell at `(x, y)` is alive if `draws[y][x]` is true and dead if it is
    /// false. A cell for which `draws` holds no draw is as before, and a draw
    /// for a position off the board counts for nothing.
    pub open spec fn drawn(self, draws: Seq<Seq<bool>>) -> Board {
        Board {
            width: self.width,
            height: self.height,
            alive: Set::new(
                |p: (int, int)|
                    self.in_bounds(p.0, p.1) && if Board::has_draw(draws, p.0, p.1) {
                        draws[p.1][p.0]
                    } else {
                        self.alive.contains(p)
                    },
            ),
        }
    }

    /// The board after `cell` was written at `(x, y)`: unchanged where the
    /// position lies outside the rectangle.
    pub open spec fn with_cell(self, x: int, y: int, cell: Cell) -> Board {
        if !self.in_bounds(x, y) {
            self
        } else if cell is Alive {
            Board { alive: self.alive.insert((x, y)), ..self }
        } else {
            Board { alive: self.alive.remove((x, y)), ..self }
        }
    }
}

/// Reading back after a write: the written position holds the new cell if it
/// lies on the board, and every other position holds what it held.
pub proof fn lemma_with_cell_reads_back(board: Board, x: int, y: int, cell: Cell, a: int, b: int)
    ensures
        board.with_cell(x, y, cell).cell(a, b) == if a == x && b == y && board.in_bounds(x, y) {
            cell
        } else {
            board.cell(a, b)
        },
        board.with_cell(x, y, cell).width == board.width,
        board.with_cell(x, y, cell).height == board.height,
        board.wf() ==> board.with_cell(x, y, cell).wf(),
{
}

/// Where there is one draw for each cell, the draws alone decide the board:
/// a cell is alive exactly if it lies on the board and its own draw is true,
/// whatever the board held before.
pub proof fn lemma_drawn_by_draws_alone(board: Board, other: Board, draws: Seq<Seq<bool>>)
    requires
        board.covered_by(draws),
        other.width == board.width,
        other.height == board.height,
    ensures
        forall|x: int, y: int|
            board.drawn(draws).is_alive(x, y) <==> board.in_bounds(x, y) && draws[y][x],
        board.drawn(draws) == other.drawn(draws),
        board.drawn(draws).wf(),
{
    assert(board.drawn(draws).alive =~= other.drawn(draws).alive);
}

/// A rectangle of cells, `height` rows of `width` cells each. Its dimensions
/// are fixed when it is made.
pub struct Grid {
    cells: Vec<Vec<Cell>>,
    width: usize,
    height: usize,
}

impl View for Grid {
    type V = Board;

    closed spec fn view(&self) -> Board {
        Board {
            width: self.width as nat,
            height: self.height as nat,
            alive: Set::new(
                |p: (int, int)|
                    0 <= p.0 < self.width && 0 <= p.1 < self.height && self.cells@[p.1]@[p.0]
                        is Alive,
            ),
        }
    }
}

/// The live cells of `board` that come before `(x, y)` in a walk row by row.
spec fn live_cells_before(board: Board, x: int, y: int) -> Set<(int, int)> {
    Set::new(|p: (int, int)| precedes(p.0, p.1, x, y) && board.is_alive(p.0, p.1))
}

/// Writes `cell` into row `y`, column `x` of `cells` and leaves every other
/// entry, and the shape, as it was.
fn store(cells: &mut Vec<Vec<Cell>>, x: usize, y: usize, cell: Cell)
    requires
        y < old(cells)@.len(),
        x < old(cells)@[y as int]@.len(),
    ensures
        final(cells)@.len() == old(cells)@.len(),
        final(cells)@[y as int]@ == old(cells)@[y as int]@.update(x as int, cell),
        forall|r: int| 0 <= r < old(cells)@.len() && r != y ==> final(cells)@[r] == old(cells)@[r],
    no_unwind
{
    cells[y][x] = cell;
}

/// Draws one boolean for each cell of a grid of the given dimensions, row by
/// row and each row from the left. Each draw is true with the chance that
/// `LIVE_CHANCE_NUMERATOR` and `LIVE_CHANCE_DENOMINATOR` state.
fn draw_rows(width: usize, height: usize) -> (draws: Vec<Vec<bool>>)
    ensures
        draws@.len() == height,
        forall|r: int| 0 <= r < height ==> (#[trigger] draws@[r])@.len() == width,
{
    let mut rng: ThreadRng = thread_rng();
    let mut draws: Vec<Vec<bool>> = Vec::new();
    for y in 0..height
        invariant
            draws@.len() == y,
            forall|r: int| 0 <= r < y ==> (#[trigger] draws@[r])@.len() == width,
    {
        let mut row: Vec<bool> = Vec::new();
        for x in 0..width
            invariant
                row@.len() == x,
        {
            let draw = gen_ratio(&mut rng, LIVE_CHANCE_NUMERATOR, LIVE_CHANCE_DENOMINATOR);
            row.push(draw);
        }
        draws.push(row);
    }
    draws
}

impl Grid {
    #[verifier::type_invariant]
    spec fn shaped(&self) -> bool {
        &&& self.cells@.len() == self.height
        &&& forall|y: int| 0 <= y < self.height ==> (#[trigger] self.cells@[y])@.len() == self.width
    }

    /// The board of a grid records no live cell outside the grid, and its
    /// dimensions are machine integers.
    pub proof fn lemma_view_wf(self)
        ensures
            self@.wf(),
            self@.width <= usize::MAX,
            self@.height <= usize::MAX,
    {
    }

    /// A grid of the given dimensions with every cell dead. Either dimension
    /// may be zero.
    pub fn new(width: usize, height: usize) -> (grid: Grid)
        ensures
            grid@ == Board::empty(width as nat, height as nat),
    {
        let cells = vec![vec![Cell::Dead; width]; height];
        let grid = Grid { cells, width, height };
        assert(grid@.alive =~= Set::empty());
        grid
    }

    pub fn width(&self) -> (width: usize)
        ensures
            width == self@.width,
    {
        self.width
    }

    pub fn height(&self) -> (height: usize)
        ensures
            height == self@.height,
    {
        self.height
    }

    /// The cell at `(x, y)`, and `Dead` for every position outside the grid.
    pub fn get(&self, x: usize, y: usize) -> (cell: Cell)
        ensures
            cell == self@.cell(x as int, y as int),
            !self@.in_bounds(x as int, y as int) ==> cell is Dead,
    {
        proof {
            use_type_invariant(self);
        }
        if x < self.width && y < self.height {
            self.cells[y][x]
        } else {
            Cell::Dead
        }
    }

    /// Writes `cell` at `(x, y)`; does nothing for a position outside the
    /// grid.
    pub fn set(&mut self, x: usize, y: usize, cell: Cell)
        ensures
            final(self)@ == old(self)@.with_cell(x as int, y as int, cell),
            !old(self)@.in_bounds(x as int, y as int) ==> final(self)@ == old(self)@,
    {
        proof {
            use_type_invariant(&*self);
        }
        if x < self.width && y < self.height {
            store(&mut self.cells, x, y, cell);
            assert(self@.alive =~= old(self)@.with_cell(x as int, y as int, cell).alive);
        }
    }

    /// Replaces each cell by the cell of its draw, `draws[y][x]` for the cell
    /// at `(x, y)`: alive on `true`, dead on `false`. A cell for which `draws`
    /// holds no draw stays as it is; a draw for a position off the grid is
    /// not used.
    pub fn fill(&mut self, draws: &Vec<Vec<bool>>)
        ensures
            final(self)@ == old(self)@.drawn(draws.deep_view()),
    {
        let width = self.width;
        let height = self.height;
        for y in 0..height
            invariant
                self.width == width,
                self.height == height,
                old(self).width == width,
                old(self).height == height,
                forall|r: int, c: int|
                    0 <= r < height && 0 <= c < width ==> (#[trigger] self.cells@[r]@[c]) == (
                    if r < y && r < draws@.len() && c < draws@[r]@.len() {
                        Cell::of(draws@[r]@[c])
                    } else {
                        old(self).cells@[r]@[c]
                    }),
        {
            if y < draws.len() {
                let row = &draws[y];
                for x in 0..width
                    invariant
                        y < height,
                        y < draws@.len(),
                        *row == draws@[y as int],
                        self.width == width,
                        self.height == height,
                        old(self).width == width,
                        old(self).height == height,
                        forall|r: int, c: int|
                            0 <= r < height && 0 <= c < width ==> (#[trigger] self.cells@[r]@[c])
                                == (
                            if precedes(c, r, x as int, y as int) && r < draws@.len()
                                && c < draws@[r]@.len() {
                                Cell::of(draws@[r]@[c])
                            } else {
                                old(self).cells@[r]@[c]
                            }),
                {
                    proof {
                        use_type_invariant(&*self);
                    }
                    if x < row.len() {
                        store(&mut self.cells, x, y, Cell::from_draw(row[x]));
                    }
                }
            }
        }
        assert(self@.alive =~= old(self)@.drawn(draws.deep_view()).alive);
    }

    /// Replaces every cell by an independent draw: alive with a chance of
    /// three in ten, dead otherwise. One draw is made for each cell, row by
    /// row, and `fill` writes the cells. The dimensions stay.
    pub fn randomize(&mut self)
        ensures
            final(self)@.width == old(self)@.width,
            final(self)@.height == old(self)@.height,
    {
        let draws = draw_rows(self.width, self.height);
        // Every cell has its draw, so none keeps what it held.
        assert(self@.covered_by(draws.deep_view()));
        self.fill(&draws);
    }

    /// Makes every cell dead. The dimensions stay.
    pub fn clear(&mut self)
        ensures
            final(self)@ == Board::empty(old(self)@.width, old(self)@.height),
            forall|x: int, y: int| final(self)@.cell(x, y) is Dead,
    {
        let width = self.width;
        let height = self.height;
        for y in 0..height
            invariant
                self.width == width,
                self.height == height,
                forall|r: int, c: int|
                    0 <= r < y && 0 <= c < width ==> (#[trigger] self.cells@[r]@[c]) is Dead,
        {
            for x in 0..width
                invariant
                    y < height,
                    self.width == width,
                    self.height == height,
                    forall|r: int, c: int|
                        0 <= r < y && 0 <= c < width ==> (#[trigger] self.cells@[r]@[c]) is Dead,
                    forall|c: int| 0 <= c < x ==> (#[trigger] self.cells@[y as int]@[c]) is Dead,
            {
                proof {
                    use_type_invariant(&*self);
                }
                store(&mut self.cells, x, y, Cell::Dead);
            }
        }
        assert(self@.alive =~= Set::empty());
    }

    /// The number of live cells. It is counted in `u128`, which holds the
    /// product of any two dimensions.
    pub fn alive_cells(&self) -> (count: u128)
        ensures
            self@.alive.finite(),
            count == self@.alive.len(),
            count <= self@.width * self@.height,
    {
        let width = self.width;
        let height = self.height;
        let mut count: u128 = 0;
        assert(live_cells_before(self@, 0, 0) =~= Set::empty());
        for y in 0..height
            invariant
                width == self@.width,
                height == self@.height,
                live_cells_before(self@, 0, y as int).finite(),
                count == live_cells_before(self@, 0, y as int).len(),
                count <= y * width,
        {
            for x in 0..width
                invariant
                    y < height,
                    width == self@.width,
                    height == self@.height,
                    live_cells_before(self@, x as int, y as int).finite(),
                    count == live_cells_before(self@, x as int, y as int).len(),
                    count <= y * width + x,
            {
                let ghost before = live_cells_before(self@, x as int, y as int);
                let ghost after = live_cells_before(self@, x + 1, y as int);
                if self.get(x, y).is_alive() {
                    proof {
                        assert(after =~= before.insert((x as int, y as int)));
                        assert(y * width <= 0xffff_ffff_ffff_ffff * 0xffff_ffff_ffff_ffff)
                            by (nonlinear_arith)
                            requires
                                0 <= y <= 0xffff_ffff_ffff_ffff,
                                0 <= width <= 0xffff_ffff_ffff_ffff,
                        ;
                    }
                    count += 1;
                } else {
                    assert(after =~= before);
                }
            }
            proof {
                assert(live_cells_before(self@, 0, y + 1) =~= live_cells_before(
                    self@,
                    width as int,
                    y as int,
                ));
                assert((y + 1) * width == y * width + width) by (nonlinear_arith);
            }
        }
        proof {
            assert(self@.alive =~= live_cells_before(self@, 0, height as int));
            assert(height * width == width * height) by (nonlinear_arith);
        }
        count
    }

    /// A grid of the given dimensions that holds the cells of `self` wherever
    /// both grids have one; its other cells are dead.
    pub fn resized(&self, width: usize, height: usize) -> (grid: Grid)
        ensures
            grid@ == self@.resized(width as nat, height as nat),
    {
        let mut new_grid = Grid::new(width, height);
        let max_y = if height < self.height { height } else { self.height };
        let max_x = if width < self.width { width } else { self.width };
        for y in 0..max_y
            invariant
                max_y <= height,
                max_y <= self@.height,
                max_x <= width,
                max_x <= self@.width,
                new_grid@.width == width,
                new_grid@.height == height,
                forall|p: (int, int)|
                    new_grid@.alive.contains(p) <==> 0 <= p.0 < max_x && 0 <= p.1 < y
                        && self@.is_alive(p.0, p.1),
        {
            for x in 0..max_x
                invariant
                    y < max_y,
                    max_y <= height,
                    max_y <= self@.height,
                    max_x <= width,
                    max_x <= self@.width,
                    new_grid@.width == width,
                    new_grid@.height == height,
                    forall|p: (int, int)|
                        new_grid@.alive.contains(p) <==> 0 <= p.0 < max_x && self@.is_alive(
                            p.0,
                            p.1,
                        ) && precedes(p.0, p.1, x as int, y as int),
            {
                let cell = self.get(x, y);
                new_grid.set(x, y, cell);
            }
        }
        assert(new_grid@.alive =~= self@.resized(width as nat, height as nat).alive);
        new_grid
    }
}

impl Clone for Grid {
    /// An independent copy: the same dimensions and the same cells.
    fn clone(&self) -> (copy: Grid)
        ensures
            copy@ == self@,
    {
        proof {
            use_type_invariant(self);
        }
        let copy = Grid { cells: self.cells.clone(), width: self.width, height: self.height };
        assert(copy@.alive =~= self@.alive);
        copy
    }
}

} // verus!
