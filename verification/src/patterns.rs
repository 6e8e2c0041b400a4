//! Well-known patterns and what the rule does to them, wherever on a board
//! they stand.

use vstd::prelude::*;
use crate::cell::Cell;
use crate::grid::{Board, Grid};

verus! {

/// The 2x2 block whose upper left cell is `(x, y)`.
pub open spec fn block(x: int, y: int) -> Set<(int, int)> {
    Set::new(|p: (int, int)| x <= p.0 <= x + 1 && y <= p.1 <= y + 1)
}

/// Three cells in a row, centred on `(x, y)`.
pub open spec fn blinker_flat(x: int, y: int) -> Set<(int, int)> {
    Set::new(|p: (int, int)| p.1 == y && x - 1 <= p.0 <= x + 1)
}

/// Three cells in a column, centred on `(x, y)`.
pub open spec fn blinker_upright(x: int, y: int) -> Set<(int, int)> {
    Set::new(|p: (int, int)| p.0 == x && y - 1 <= p.1 <= y + 1)
}

/// The glider that heads down and to the right, in the 3x3 box whose upper
/// left corner is `(x, y)`:
///
/// ```text
/// . # .
/// . . #
/// # # #
/// ```
pub open spec fn glider(x: int, y: int) -> Set<(int, int)> {
    Set::new(
        |p: (int, int)|
            p == (x + 1, y) || p == (x + 2, y + 1) || p == (x, y + 2) || p == (x + 1, y + 2) || p
                == (x + 2, y + 2),
    )
}

/// The glider one generation on.
spec fn glider_second(x: int, y: int) -> Set<(int, int)> {
    Set::new(
        |p: (int, int)|
            p == (x, y + 1) || p == (x + 2, y + 1) || p == (x + 1, y + 2) || p == (x + 2, y + 2)
                || p == (x + 1, y + 3),
    )
}

/// The glider two generations on.
spec fn glider_third(x: int, y: int) -> Set<(int, int)> {
    Set::new(
        |p: (int, int)|
            p == (x + 2, y + 1) || p == (x, y + 2) || p == (x + 2, y + 2) || p == (x + 1, y + 3)
                || p == (x + 2, y + 3),
    )
}

/// The glider three generations on.
spec fn glider_fourth(x: int, y: int) -> Set<(int, int)> {
    Set::new(
        |p: (int, int)|
            p == (x + 1, y + 1) || p == (x + 2, y + 2) || p == (x + 3, y + 2) || p == (x + 1, y + 3)
                || p == (x + 2, y + 3),
    )
}

/// The board of `board`'s dimensions whose live cells are `alive`.
pub open spec fn repopulated(board: Board, alive: Set<(int, int)>) -> Board {
    Board { width: board.width, height: board.height, alive }
}

/// Still life: a board whose only live cells are a 2x2 block is its own next
/// generation, wherever on the board the block stands.
pub proof fn lemma_block_is_still(board: Board, x: int, y: int)
    requires
        board.in_bounds(x, y),
        board.in_bounds(x + 1, y + 1),
        board.alive == block(x, y),
    ensures
        board.step() == board,
{
    assert(board.step().alive =~= board.alive);
}

/// Oscillator: a board whose only live cells are three in a row, with a row
/// of the board above and below them, has them in a column after one
/// generation and in the row again after two.
pub proof fn lemma_blinker_oscillates(board: Board, x: int, y: int)
    requires
        board.in_bounds(x - 1, y - 1),
        board.in_bounds(x + 1, y + 1),
        board.alive == blinker_flat(x, y),
    ensures
        board.step() == repopulated(board, blinker_upright(x, y)),
        board.step().step() == board,
{
    let upright = repopulated(board, blinker_upright(x, y));
    assert(board.step().alive =~= upright.alive);
    assert(upright.step().alive =~= board.alive);
}

/// One generation takes a board that holds exactly `from` to the board that
/// holds exactly `to`, if the rule makes the cells of `to`, and no others,
/// alive.
proof fn lemma_step_to(board: Board, from: Set<(int, int)>, to: Set<(int, int)>)
    requires
        forall|a: int, b: int|
            #![trigger to.contains((a, b))]
            repopulated(board, from).alive_next(a, b) <==> to.contains((a, b)),
    ensures
        repopulated(board, from).step() == repopulated(board, to),
{
    let next = repopulated(board, from).step();
    assert forall|p: (int, int)| next.alive.contains(p) <==> to.contains(p) by {
        assert(p == (p.0, p.1));
    }
    assert(next.alive =~= to);
}

proof fn lemma_glider_first_step(board: Board, x: int, y: int)
    requires
        board.in_bounds(x, y),
        board.in_bounds(x + 3, y + 3),
    ensures
        repopulated(board, glider(x, y)).step() == repopulated(board, glider_second(x, y)),
{
    lemma_step_to(board, glider(x, y), glider_second(x, y));
}

proof fn lemma_glider_second_step(board: Board, x: int, y: int)
    requires
        board.in_bounds(x, y),
        board.in_bounds(x + 3, y + 3),
    ensures
        repopulated(board, glider_second(x, y)).step() == repopulated(board, glider_third(x, y)),
{
    lemma_step_to(board, glider_second(x, y), glider_third(x, y));
}

proof fn lemma_glider_third_step(board: Board, x: int, y: int)
    requires
        board.in_bounds(x, y),
        board.in_bounds(x + 3, y + 3),
    ensures
        repopulated(board, glider_third(x, y)).step() == repopulated(board, glider_fourth(x, y)),
{
    lemma_step_to(board, glider_third(x, y), glider_fourth(x, y));
}

proof fn lemma_glider_fourth_step(board: Board, x: int, y: int)
    requires
        board.in_bounds(x, y),
        board.in_bounds(x + 3, y + 3),
    ensures
        repopulated(board, glider_fourth(x, y)).step() == repopulated(
            board,
            glider(x + 1, y + 1),
        ),
{
    lemma_step_to(board, glider_fourth(x, y), glider(x + 1, y + 1));
}

/// Glider: a board whose only live cells are a glider, with one more row
/// below and one more column to the right of its box, holds after four
/// generations the same glider one cell further down and to the right.
pub proof fn lemma_glider_travels(board: Board, x: int, y: int)
    requires
        board.in_bounds(x, y),
        board.in_bounds(x + 3, y + 3),
        board.alive == glider(x, y),
    ensures
        board.step().step().step().step() == repopulated(board, glider(x + 1, y + 1)),
{
    assert(board == repopulated(board, glider(x, y)));
    lemma_glider_first_step(board, x, y);
    lemma_glider_second_step(board, x, y);
    lemma_glider_third_step(board, x, y);
    lemma_glider_fourth_step(board, x, y);
}

/// The position that `offset` names, counted from the centre of `board`:
/// column `width / 2` of row `height / 2`.
pub open spec fn anchored(board: Board, offset: (i32, i32)) -> (int, int) {
    (board.width as int / 2 + offset.0, board.height as int / 2 + offset.1)
}

/// The board after a pattern, given by the offsets of its cells from the
/// centre, was laid over it: the cells of the pattern that fall on the board
/// are alive, and every other cell is as before.
pub open spec fn overlaid(board: Board, offsets: Seq<(i32, i32)>) -> Board {
    Board {
        width: board.width,
        height: board.height,
        alive: Set::new(
            |p: (int, int)|
                board.alive.contains(p) || (board.in_bounds(p.0, p.1) && exists|k: int|
                    0 <= k < offsets.len() && anchored(board, #[trigger] offsets[k]) == p),
        ),
    }
}

/// Laying one more cell of a pattern over a board: the step from the first
/// `k` offsets to the first `k + 1`.
proof fn lemma_overlaid_next(board: Board, offsets: Seq<(i32, i32)>, k: int)
    requires
        0 <= k < offsets.len(),
    ensures
        overlaid(board, offsets.take(k + 1)) == ({
            let at = anchored(board, offsets[k]);
            let so_far = overlaid(board, offsets.take(k));
            if board.in_bounds(at.0, at.1) {
                Board { alive: so_far.alive.insert(at), ..so_far }
            } else {
                so_far
            }
        }),
{
    let done = offsets.take(k);
    let more = offsets.take(k + 1);
    let at = anchored(board, offsets[k]);
    let so_far = overlaid(board, done);
    let expected = if board.in_bounds(at.0, at.1) {
        so_far.alive.insert(at)
    } else {
        so_far.alive
    };
    assert(more[k] == offsets[k]);
    assert forall|p: (int, int)| overlaid(board, more).alive.contains(p) implies expected.contains(
        p,
    ) by {
        if !board.alive.contains(p) {
            let j = choose|j: int| 0 <= j < more.len() && anchored(board, #[trigger] more[j]) == p;
            if j < k {
                assert(done[j] == more[j]);
            }
        }
    }
    assert forall|p: (int, int)| expected.contains(p) implies overlaid(board, more).alive.contains(
        p,
    ) by {
        if so_far.alive.contains(p) {
            if !board.alive.contains(p) {
                let j = choose|j: int|
                    0 <= j < done.len() && anchored(board, #[trigger] done[j]) == p;
                assert(more[j] == done[j]);
            }
        } else {
            assert(anchored(board, more[k]) == p);
        }
    }
    assert(overlaid(board, more).alive =~= expected);
}

/// Lays a pattern over the grid, its offsets counted from the centre of the
/// grid. A cell of the pattern that falls outside the grid is left out.
pub fn insert_pattern(grid: &mut Grid, cells: &[(i32, i32)])
    ensures
        final(grid)@ == overlaid(old(grid)@, cells@),
{
    let width = grid.width();
    let height = grid.height();
    let center_x = width / 2;
    let center_y = height / 2;
    proof {
        assert(overlaid(old(grid)@, cells@.take(0)).alive =~= old(grid)@.alive);
    }
    for k in 0..cells.len()
        invariant
            width == old(grid)@.width,
            height == old(grid)@.height,
            center_x == width / 2,
            center_y == height / 2,
            grid@ == overlaid(old(grid)@, cells@.take(k as int)),
    {
        let (dx, dy) = cells[k];
        proof {
            lemma_overlaid_next(old(grid)@, cells@, k as int);
        }
        match (center_x.checked_add_signed(dx as isize), center_y.checked_add_signed(dy as isize)) {
            (Some(x), Some(y)) => {
                if x < width && y < height {
                    grid.set(x, y, Cell::Alive);
                }
            },
            _ => {},
        }
    }
    assert(cells@.take(cells@.len() as int) =~= cells@);
}

} // verus!
