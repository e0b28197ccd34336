use game_of_life::driver::{grid_dimensions, Simulation, CELL_SCALE};
use game_of_life::grid::{diff, World, SEED_ALIVE_MAX, SEED_DRAW_BOUND};
use game_of_life::states::AppState;
use oorandom::Rand32;

fn world_with(width: usize, height: usize, alive: &[(usize, usize)]) -> World {
    let mut cells = vec![false; width * height];
    for &(x, y) in alive {
        cells[y * width + x] = true;
    }
    World { cells, width, height }
}

fn live_set(world: &World) -> Vec<(usize, usize)> {
    let mut out = Vec::new();
    for y in 0..world.height {
        for x in 0..world.width {
            if world.cells[y * world.width + x] {
                out.push((x, y));
            }
        }
    }
    out
}

#[test]
fn cell_id_is_row_major() {
    let world = world_with(5, 4, &[]);
    assert_eq!(world.calculate_cell_id(0, 0), 0);
    assert_eq!(world.calculate_cell_id(1, 2), 11);
    assert_eq!(world.calculate_cell_id(4, 3), 19);
}

#[test]
fn cell_ids_cover_the_grid_once() {
    let world = world_with(7, 3, &[]);
    let mut seen = vec![false; 21];
    for y in 0..3 {
        for x in 0..7 {
            let id = world.calculate_cell_id(x, y);
            assert!(id < 21);
            assert!(!seen[id]);
            seen[id] = true;
            assert_eq!(world.cell_coordinates(id), (x, y));
        }
    }
    assert!(seen.iter().all(|s| *s));
}

#[test]
fn is_alive_reads_the_cell() {
    let world = world_with(3, 3, &[(2, 1)]);
    assert!(world.is_alive(5));
    assert!(!world.is_alive(4));
}

#[test]
fn full_grid_center_has_eight_neighbors() {
    let all: Vec<(usize, usize)> = (0..3).flat_map(|y| (0..3).map(move |x| (x, y))).collect();
    let world = world_with(3, 3, &all);
    assert_eq!(world.count_alive_around(1, 1), 8);
    assert_eq!(world.count_alive_around(0, 0), 3);
    assert_eq!(world.count_alive_around(1, 0), 5);
}

#[test]
fn corner_counts_at_most_three() {
    let all: Vec<(usize, usize)> = (0..4).flat_map(|y| (0..4).map(move |x| (x, y))).collect();
    let world = world_with(4, 4, &all);
    assert_eq!(world.count_alive_around(0, 0), 3);
    assert_eq!(world.count_alive_around(3, 3), 3);
    let lone = world_with(5, 5, &[(0, 0)]);
    assert_eq!(lone.count_alive_around(0, 0), 0);
    assert_eq!(lone.count_alive_around(1, 1), 1);
    assert_eq!(lone.count_alive_around(4, 4), 0);
    assert_eq!(lone.count_alive_around(4, 0), 0);
    assert_eq!(lone.count_alive_around(0, 4), 0);
}

#[test]
fn neighbor_does_not_wrap_between_rows() {
    // (0, 1) lies right after (4, 0) in memory but is not its neighbour.
    let world = world_with(5, 3, &[(0, 1)]);
    assert_eq!(world.count_alive_around(4, 0), 0);
    assert_eq!(world.count_alive_around(4, 1), 0);
    assert_eq!(world.count_alive_around(4, 2), 0);
    assert_eq!(world.count_alive_around(1, 0), 1);
}

#[test]
fn dead_grid_is_stable() {
    let world = world_with(6, 4, &[]);
    let (next, births, deaths) = world.next_generation();
    assert_eq!(next, vec![false; 24]);
    assert!(births.is_empty());
    assert!(deaths.is_empty());
}

#[test]
fn dead_cell_with_three_neighbors_is_born() {
    let world = world_with(4, 4, &[(0, 0), (2, 0), (1, 2)]);
    assert_eq!(world.count_alive_around(1, 1), 3);
    let (next, births, _) = world.next_generation();
    assert!(births.contains(&5));
    assert!(next[5]);
}

#[test]
fn live_cell_with_two_or_three_neighbors_survives() {
    let world = world_with(5, 5, &[(1, 1), (2, 2), (3, 3)]);
    assert_eq!(world.count_alive_around(2, 2), 2);
    let (next, births, deaths) = world.next_generation();
    assert!(next[12]);
    assert!(!births.contains(&12));
    assert!(!deaths.contains(&12));

    let block = world_with(4, 4, &[(1, 1), (2, 1), (1, 2), (2, 2)]);
    assert_eq!(block.count_alive_around(1, 1), 3);
    let (next, births, deaths) = block.next_generation();
    assert_eq!(next, block.cells);
    assert!(births.is_empty());
    assert!(deaths.is_empty());
}

#[test]
fn live_cell_dies_of_isolation_or_crowding() {
    let lone = world_with(3, 3, &[(1, 1)]);
    let (next, _, deaths) = lone.next_generation();
    assert_eq!(deaths, vec![4]);
    assert!(!next[4]);

    let all: Vec<(usize, usize)> = (0..3).flat_map(|y| (0..3).map(move |x| (x, y))).collect();
    let full = world_with(3, 3, &all);
    let (next, births, deaths) = full.next_generation();
    assert!(births.is_empty());
    assert_eq!(deaths, vec![1, 3, 4, 5, 7]);
    assert_eq!(next, vec![true, false, true, false, false, false, true, false, true]);
}

#[test]
fn blinker_oscillates_with_period_two() {
    let mut world = world_with(5, 5, &[(1, 2), (2, 2), (3, 2)]);
    let changes = world.advance();
    assert_eq!(live_set(&world), vec![(2, 1), (2, 2), (2, 3)]);
    assert_eq!(changes.births, vec![7, 17]);
    assert_eq!(changes.deaths, vec![11, 13]);
    let changes = world.advance();
    assert_eq!(live_set(&world), vec![(1, 2), (2, 2), (3, 2)]);
    assert_eq!(changes.births, vec![11, 13]);
    assert_eq!(changes.deaths, vec![7, 17]);
}

#[test]
fn applying_changes_rebuilds_next_state() {
    let world = world_with(6, 6, &[(0, 0), (1, 0), (2, 1), (4, 4), (5, 4), (4, 5), (3, 3), (0, 5)]);
    let (next, births, deaths) = world.next_generation();
    let mut applied = world.cells.clone();
    for &b in &births {
        applied[b] = true;
    }
    for &d in &deaths {
        applied[d] = false;
    }
    assert_eq!(applied, next);
    assert_eq!(world.cells.len(), 36);
}

#[test]
fn diff_lists_changes_in_order() {
    let cur = vec![true, false, true, false, true];
    let nxt = vec![false, true, true, true, false];
    let (births, deaths) = diff(&cur, &nxt);
    assert_eq!(births, vec![1, 3]);
    assert_eq!(deaths, vec![0, 4]);
}

#[test]
fn seeding_from_draws_uses_threshold() {
    assert_eq!(SEED_DRAW_BOUND, 100);
    assert_eq!(SEED_ALIVE_MAX, 4);
    let draws = vec![0, 5, 6, 99, 3, 50];
    let (world, births) = World::seed_from_draws(3, 2, &draws);
    assert_eq!(world.width, 3);
    assert_eq!(world.height, 2);
    assert_eq!(world.cells, vec![true, false, false, false, true, false]);
    assert_eq!(births, vec![0, 4]);
}

#[test]
fn seeding_threshold_keeps_five_of_a_hundred_draws() {
    let draws: Vec<u32> = (0..100).collect();
    let (world, births) = World::seed_from_draws(10, 10, &draws);
    assert_eq!(births, vec![0, 1, 2, 3, 4]);
    assert!(world.cells[4]);
    assert!(!world.cells[5]);
}

#[test]
fn seeding_from_generator_fills_every_cell() {
    let mut rng = Rand32::new(7);
    let (world, births) = World::seed(20, 10, &mut rng);
    assert_eq!(world.cells.len(), 200);
    let alive: Vec<usize> = (0..200).filter(|&i| world.cells[i]).collect();
    assert_eq!(births, alive);
    // Draws are spread over [0, 100): far from every cell starts alive.
    assert!(births.len() < 100);
}

#[test]
fn grid_dimensions_round_down() {
    assert_eq!(CELL_SCALE, 10);
    assert_eq!(grid_dimensions(1280, 720), (128, 72));
    assert_eq!(grid_dimensions(1289, 9), (128, 0));
}

#[test]
fn phases_advance_in_order() {
    assert_eq!(AppState::default(), AppState::InitialisingCamera);
    assert_eq!(AppState::InitialisingCamera.next(), AppState::InitialisingResources);
    assert_eq!(AppState::InitialisingResources.next(), AppState::InitialisingWorld);
    assert_eq!(AppState::InitialisingWorld.next(), AppState::Playing);
    assert_eq!(AppState::Playing.next(), AppState::Playing);
}

#[test]
fn simulation_runs_through_its_phases() {
    let mut rng = Rand32::new(3);
    let mut sim = Simulation::new();
    let c = sim.tick(None, &mut rng);
    assert_eq!(sim.phase, AppState::InitialisingResources);
    assert!(c.births.is_empty() && c.deaths.is_empty());

    let c = sim.tick(None, &mut rng);
    assert_eq!(sim.phase, AppState::InitialisingResources);
    assert!(c.births.is_empty() && c.deaths.is_empty());

    sim.tick(Some((205, 117)), &mut rng);
    assert_eq!(sim.phase, AppState::InitialisingWorld);
    assert_eq!((sim.world.width, sim.world.height), (20, 11));

    let c = sim.tick(None, &mut rng);
    assert_eq!(sim.phase, AppState::Playing);
    assert_eq!(sim.world.cells.len(), 220);
    let alive: Vec<usize> = (0..220).filter(|&i| sim.world.cells[i]).collect();
    assert_eq!(c.births, alive);
    assert!(c.deaths.is_empty());

    let before = sim.world.cells.clone();
    let (expected, births, deaths) = sim.world.next_generation();
    let c = sim.tick(None, &mut rng);
    assert_eq!(sim.phase, AppState::Playing);
    assert_eq!(sim.world.cells, expected);
    assert_eq!(c.births, births);
    assert_eq!(c.deaths, deaths);
    assert_eq!(before.len(), 220);
}
