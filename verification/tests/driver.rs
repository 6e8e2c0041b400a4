use game_of_life::cell::Cell;
use game_of_life::grid::Grid;
use game_of_life::patterns::insert_pattern;
use game_of_life::rules::next_generation;
use game_of_life::simulation::{Command, Simulation};

fn live_cells(grid: &Grid) -> Vec<(usize, usize)> {
    let mut live = Vec::new();
    for y in 0..grid.height() {
        for x in 0..grid.width() {
            if grid.get(x, y).is_alive() {
                live.push((x, y));
            }
        }
    }
    live
}

fn paused_blinker() -> Simulation {
    let mut grid = Grid::new(5, 5);
    grid.set(1, 2, Cell::Alive);
    grid.set(2, 2, Cell::Alive);
    grid.set(3, 2, Cell::Alive);
    Simulation { grid, generation: 7, paused: true }
}

#[test]
fn insert_pattern_counts_offsets_from_the_centre() {
    let mut grid = Grid::new(10, 8);
    grid.set(0, 0, Cell::Alive);
    insert_pattern(&mut grid, &[(1, 0), (2, 1), (0, 2), (1, 2), (2, 2)]);
    assert_eq!(live_cells(&grid), vec![(0, 0), (6, 4), (7, 5), (5, 6), (6, 6), (7, 6)]);
}

#[test]
fn insert_pattern_takes_negative_offsets() {
    let mut grid = Grid::new(5, 5);
    insert_pattern(&mut grid, &[(-1, 0), (0, 0), (1, 0), (0, -2), (-2, 2)]);
    assert_eq!(live_cells(&grid), vec![(2, 0), (1, 2), (2, 2), (3, 2), (0, 4)]);
}

#[test]
fn insert_pattern_leaves_out_what_falls_off_the_grid() {
    let mut grid = Grid::new(3, 3);
    insert_pattern(
        &mut grid,
        &[(0, 0), (2, 0), (0, 2), (-2, 0), (0, -2), (i32::MAX, 0), (0, i32::MIN), (1, 1)],
    );
    assert_eq!(live_cells(&grid), vec![(1, 1), (2, 2)]);
}

#[test]
fn insert_pattern_keeps_live_cells_and_takes_an_empty_pattern() {
    let mut grid = Grid::new(4, 4);
    grid.set(2, 2, Cell::Alive);
    grid.set(3, 0, Cell::Alive);
    insert_pattern(&mut grid, &[]);
    assert_eq!(live_cells(&grid), vec![(3, 0), (2, 2)]);
    insert_pattern(&mut grid, &[(0, 0), (0, 0)]);
    assert_eq!(live_cells(&grid), vec![(3, 0), (2, 2)]);
    let mut none = Grid::new(0, 0);
    insert_pattern(&mut none, &[(0, 0), (1, 1)]);
    assert_eq!(none.alive_cells(), 0);
}

#[test]
fn new_simulation_runs_from_generation_zero() {
    let simulation = Simulation::new(80, 40);
    assert_eq!(simulation.grid.width(), 80);
    assert_eq!(simulation.grid.height(), 40);
    assert_eq!(simulation.generation, 0);
    assert!(!simulation.paused);
    assert!(simulation.grid.alive_cells() > 0);
}

#[test]
fn quit_ends_the_run_and_changes_nothing() {
    let mut simulation = paused_blinker();
    assert!(!simulation.handle(Command::Quit));
    assert_eq!(simulation.generation, 7);
    assert!(simulation.paused);
    assert_eq!(live_cells(&simulation.grid), vec![(1, 2), (2, 2), (3, 2)]);
}

#[test]
fn idle_changes_nothing() {
    let mut simulation = paused_blinker();
    assert!(simulation.handle(Command::Idle));
    assert_eq!(simulation.generation, 7);
    assert!(simulation.paused);
    assert_eq!(live_cells(&simulation.grid), vec![(1, 2), (2, 2), (3, 2)]);
}

#[test]
fn toggle_pause_flips_the_mode_only() {
    let mut simulation = paused_blinker();
    assert!(simulation.handle(Command::TogglePause));
    assert!(!simulation.paused);
    assert_eq!(simulation.generation, 7);
    assert_eq!(live_cells(&simulation.grid), vec![(1, 2), (2, 2), (3, 2)]);
    simulation.toggle_pause();
    assert!(simulation.paused);
    assert_eq!(simulation.generation, 7);
}

#[test]
fn clear_command_empties_the_grid_and_restarts_the_count() {
    let mut simulation = paused_blinker();
    assert!(simulation.handle(Command::Clear));
    assert_eq!(simulation.generation, 0);
    assert!(simulation.paused);
    assert_eq!(simulation.grid.width(), 5);
    assert_eq!(simulation.grid.height(), 5);
    assert_eq!(simulation.grid.alive_cells(), 0);
}

#[test]
fn randomize_command_restarts_the_count_and_keeps_the_mode() {
    let mut simulation = Simulation { grid: Grid::new(60, 60), generation: 12, paused: true };
    assert!(simulation.handle(Command::Randomize));
    assert_eq!(simulation.generation, 0);
    assert!(simulation.paused);
    assert_eq!(simulation.grid.width(), 60);
    assert_eq!(simulation.grid.height(), 60);
    let alive = simulation.grid.alive_cells();
    assert!(alive > 800 && alive < 1400, "{} cells alive", alive);
}

#[test]
fn paint_and_erase_write_one_cell_and_keep_the_count() {
    let mut simulation = paused_blinker();
    assert!(simulation.handle(Command::Paint { x: 0, y: 0 }));
    assert_eq!(live_cells(&simulation.grid), vec![(0, 0), (1, 2), (2, 2), (3, 2)]);
    assert!(simulation.handle(Command::Erase { x: 2, y: 2 }));
    assert_eq!(live_cells(&simulation.grid), vec![(0, 0), (1, 2), (3, 2)]);
    assert!(simulation.handle(Command::Paint { x: 5, y: 0 }));
    assert!(simulation.handle(Command::Erase { x: 0, y: 9 }));
    assert_eq!(live_cells(&simulation.grid), vec![(0, 0), (1, 2), (3, 2)]);
    assert_eq!(simulation.generation, 7);
    assert!(simulation.paused);
}

#[test]
fn advance_steps_a_running_simulation() {
    let mut simulation = paused_blinker();
    simulation.paused = false;
    assert!(simulation.advance());
    assert_eq!(simulation.generation, 8);
    assert!(!simulation.paused);
    assert_eq!(live_cells(&simulation.grid), vec![(2, 1), (2, 2), (2, 3)]);
    assert!(simulation.advance());
    assert_eq!(simulation.generation, 9);
    assert_eq!(live_cells(&simulation.grid), vec![(1, 2), (2, 2), (3, 2)]);
}

#[test]
fn advance_leaves_a_paused_simulation() {
    let mut simulation = paused_blinker();
    assert!(!simulation.advance());
    assert_eq!(simulation.generation, 7);
    assert!(simulation.paused);
    assert_eq!(live_cells(&simulation.grid), vec![(1, 2), (2, 2), (3, 2)]);
    simulation.generation = u64::MAX;
    assert!(!simulation.advance());
    assert_eq!(simulation.generation, u64::MAX);
}

#[test]
fn advance_agrees_with_next_generation() {
    let mut simulation = Simulation::new(30, 20);
    let expected = next_generation(&simulation.grid);
    assert!(simulation.advance());
    assert_eq!(simulation.generation, 1);
    assert_eq!(live_cells(&simulation.grid), live_cells(&expected));
}

#[test]
fn resize_keeps_the_overlap_and_restarts_the_count() {
    let mut simulation = paused_blinker();
    simulation.resize(3, 6);
    assert_eq!(simulation.grid.width(), 3);
    assert_eq!(simulation.grid.height(), 6);
    assert_eq!(live_cells(&simulation.grid), vec![(1, 2), (2, 2)]);
    assert_eq!(simulation.generation, 0);
    assert!(simulation.paused);
}

#[test]
fn simulation_insert_pattern_restarts_the_count() {
    let mut simulation = paused_blinker();
    simulation.insert_pattern(&[(0, -1), (0, 1)]);
    assert_eq!(live_cells(&simulation.grid), vec![(2, 1), (1, 2), (2, 2), (3, 2), (2, 3)]);
    assert_eq!(simulation.generation, 0);
    assert!(simulation.paused);
}
