use dla_rust::colors::{get_gradients, ColorName, Theme};
use dla_rust::config::{DlaConfig, GridType};
use dla_rust::dla::{
    DlaGrid, Search, Walker, BATCH_SIZE, DEFAULT_BACK_CLR, DEFAULT_PART_CLR, DEFAULT_THEME,
    IDLE_MILLIS, MAX_RETRIES, PAUSE_BUTTON_TEXT, UNPAUSE_BUTTON_TEXT,
};
use dla_rust::grid::{Grid, Particle};

fn config(width: u32, height: u32, particles: usize, kind: Option<&str>) -> DlaConfig {
    let mut config = DlaConfig::default();
    config.width = width;
    config.height = Some(height);
    config.particles = particles;
    config.grid_type = kind.map(|s| s.to_string());
    config
}

fn empty_grid(width: usize, height: usize) -> Grid {
    Grid { cells: vec![Particle { filled: false, id: 0 }; width * height], width, height }
}

fn full_grid(width: usize, height: usize) -> Grid {
    Grid { cells: vec![Particle { filled: true, id: 0 }; width * height], width, height }
}

fn sim_on(grid: Grid, particles: usize) -> DlaGrid {
    let mut sim = DlaGrid::default();
    sim.handle_from_button_clicked(Some(grid));
    sim.particles = particles;
    sim.is_complete = false;
    sim.paused = false;
    sim.do_resize = false;
    sim
}

fn filled_count(sim: &DlaGrid) -> usize {
    sim.grid.cells.iter().filter(|cell| cell.filled).count()
}

fn settled_count(sim: &DlaGrid) -> usize {
    let (x, y) = sim.cur_part.pos;
    let walker = x + y * sim.grid.width;
    (0..sim.grid.cells.len())
        .filter(|i| sim.grid.cells[*i].filled && !(sim.cur_part.exists && *i == walker))
        .count()
}

fn touches_filled(sim: &DlaGrid, x: usize, y: usize) -> bool {
    for dy in -1i64..=1 {
        for dx in -1i64..=1 {
            if dx == 0 && dy == 0 {
                continue;
            }
            let nx = x as i64 + dx;
            let ny = y as i64 + dy;
            if nx >= 0
                && ny >= 0
                && (nx as usize) < sim.grid.width
                && (ny as usize) < sim.grid.height
                && sim.grid.cells[nx as usize + ny as usize * sim.grid.width].filled
            {
                return true;
            }
        }
    }
    false
}

#[test]
fn default_simulation_waits_on_a_centre_seed() {
    let sim = DlaGrid::default();
    assert_eq!(sim.size(), (400, 400));
    assert_eq!(sim.grid_type(), GridType::Center);
    assert_eq!(sim.stuck_particles(), 1);
    assert!(sim.paused());
    assert!(!sim.complete());
    assert!(!sim.cur_part.exists);
    assert_eq!(sim.cur_part.pos, (0, 0));
    assert_eq!(sim.particles, 10_000);
    assert_eq!(sim.updates, 0);
    assert_eq!(sim.fill_color, ColorName::Seafoam.get_color());
    assert_eq!(sim.empty_color, ColorName::Black.get_color());
    assert_eq!(sim.spawn_radius, None);
    assert!(!sim.do_resize);
    assert_eq!(sim.theme, Some(Theme::Seafoam));
    assert!(sim.grid.cells[200 + 200 * 400].filled);
    assert_eq!(DEFAULT_PART_CLR, ColorName::Seafoam);
    assert_eq!(DEFAULT_BACK_CLR, ColorName::Black);
    assert_eq!(DEFAULT_THEME, Theme::Seafoam);
}

#[test]
fn simulation_from_config_takes_its_settings() {
    let sim = DlaGrid::from(&config(6, 4, 17, Some("AllEdges")));
    assert_eq!(sim.size(), (6, 4));
    assert_eq!(sim.grid_type(), GridType::AllEdges);
    assert_eq!(sim.stuck_particles(), 16);
    assert_eq!(sim.particles, 17);
    assert!(sim.paused());
    assert!(!sim.complete());
    assert!(!sim.cur_part.exists);
    assert_eq!(sim.updates, 0);
    assert_eq!(sim.spawn_radius, None);
    assert_eq!(sim.theme, Some(Theme::Seafoam));
}

#[test]
fn simulation_from_config_is_square_without_a_height() {
    let mut config = DlaConfig::default();
    config.width = 7;
    let sim = DlaGrid::from(&config);
    assert_eq!(sim.size(), (7, 7));
    assert_eq!(sim.stuck_particles(), 1);
    assert!(sim.grid.cells[3 + 3 * 7].filled);
}

#[test]
fn update_after_completion_changes_nothing() {
    let mut sim = DlaGrid::from(&config(8, 8, 3, None));
    sim.handle_pause_button_clicked(UNPAUSE_BUTTON_TEXT);
    sim.run();
    assert!(sim.complete());
    let before = format!("{:?}", sim);
    for _ in 0..20 {
        sim.update();
    }
    assert_eq!(format!("{:?}", sim), before);
}

#[test]
fn update_on_a_full_grid_ends_the_run() {
    let mut sim = sim_on(full_grid(4, 4), 100);
    assert!(!sim.complete());
    assert_eq!(sim.stuck_particles(), 16);
    sim.update();
    assert!(sim.complete());
    assert_eq!(sim.updates, 1);
    assert!(sim.cur_part.pos.0 < 4 && sim.cur_part.pos.1 < 4);
}

#[test]
fn update_with_every_cell_inside_the_radius_ends_the_run() {
    let mut sim = sim_on(empty_grid(5, 5), 100);
    sim.handle_spawn_radius_changed(Some(50));
    sim.update();
    assert!(sim.complete());
    // the particle was put on an empty cell all the same and nothing is near it
    assert!(sim.cur_part.exists);
    assert_eq!(filled_count(&sim), 1);
    assert_eq!(sim.stuck_particles(), 0);
}

#[test]
fn raising_the_target_of_a_finished_run_reopens_it() {
    let mut grid = empty_grid(20, 20);
    for i in 0..100 {
        grid.cells[i].filled = true;
    }
    let mut sim = DlaGrid::default();
    sim.paused = false;
    sim.handle_from_button_clicked(Some(grid));
    assert!(sim.complete());
    assert_eq!(sim.stuck_particles(), 100);
    assert_eq!(sim.particles, 100);
    sim.handle_particles_changed(150);
    assert!(!sim.complete());
    assert!(sim.paused());
    assert_eq!(sim.particles, 150);
    assert_eq!(sim.stuck_particles(), 100);
}

#[test]
fn a_target_equal_to_what_has_stuck_ends_the_run() {
    let mut sim = DlaGrid::from(&config(6, 6, 50, Some("bottomedge")));
    assert_eq!(sim.stuck_particles(), 6);
    sim.handle_particles_changed(6);
    assert!(sim.complete());
    assert_eq!(sim.particles, 6);
    assert!(sim.paused());
}

#[test]
fn other_targets_are_only_stored() {
    let mut sim = DlaGrid::from(&config(6, 6, 50, None));
    sim.handle_particles_changed(20);
    assert!(!sim.complete());
    assert!(sim.paused());
    assert_eq!(sim.particles, 20);
    // complete, and the target shrinks: still complete
    sim.is_complete = true;
    sim.paused = false;
    sim.handle_particles_changed(10);
    assert!(sim.complete());
    assert!(!sim.paused());
    assert_eq!(sim.particles, 10);
    // a target that stays away from what has stuck changes nothing, said twice or not
    sim.is_complete = false;
    sim.paused = true;
    sim.handle_particles_changed(10);
    assert!(!sim.complete());
    assert!(sim.paused());
    assert_eq!(sim.particles, 10);
    assert_eq!(sim.stuck_particles(), 1);
}

#[test]
fn the_same_target_ends_the_run_if_that_many_have_stuck() {
    let mut settings = config(4, 3, 4, Some("bottomedge"));
    settings.particles = 4;
    let mut sim = DlaGrid::from(&settings);
    assert!(sim.paused());
    assert!(!sim.complete());
    assert_eq!(sim.stuck_particles(), 4);
    assert_eq!(sim.particles, 4);
    sim.handle_particles_changed(4);
    assert!(sim.complete());
    assert_eq!(sim.stuck_particles(), 4);
    assert_eq!(sim.particles, 4);
    assert!(sim.paused());
}

#[test]
fn a_finished_run_stays_finished_under_the_same_target() {
    let mut sim = DlaGrid::from(&config(6, 6, 50, None));
    sim.is_complete = true;
    sim.paused = false;
    sim.handle_particles_changed(50);
    assert!(sim.complete());
    assert!(!sim.paused());
    assert_eq!(sim.particles, 50);
}

#[test]
fn a_search_is_given_up_with_the_thousandth_failure() {
    assert_eq!(DlaGrid::after_draw(0, true), Search::Found);
    assert_eq!(DlaGrid::after_draw(999, true), Search::Found);
    assert_eq!(DlaGrid::after_draw(0, false), Search::Again(1));
    assert_eq!(DlaGrid::after_draw(1, false), Search::Again(2));
    assert_eq!(DlaGrid::after_draw(997, false), Search::Again(998));
    assert_eq!(DlaGrid::after_draw(998, false), Search::Again(999));
    assert_eq!(DlaGrid::after_draw(999, false), Search::GiveUp);
}

#[test]
fn a_grid_of_one_full_cell_ends_its_run_at_once() {
    let mut sim = sim_on(full_grid(1, 1), 5);
    assert!(sim.is_wf());
    assert!(sim.can_run());
    sim.run();
    assert!(sim.complete());
    assert_eq!(sim.updates, 1);
    assert_eq!(sim.stuck_particles(), 1);
    assert_eq!(sim.cur_part.pos, (0, 0));
    let mut worked_on = sim_on(full_grid(1, 1), 5);
    assert!(worked_on.work_batch());
    assert!(worked_on.complete());
    assert_eq!(worked_on.updates, 1);
    assert!(!worked_on.work_batch());
}

#[test]
fn can_run_sees_whether_a_walker_could_get_shut_in() {
    // more than one cell: always
    assert!(DlaGrid::from(&config(2, 1, 10, None)).can_run());
    assert!(DlaGrid::from(&config(1, 2, 10, None)).can_run());
    // one empty cell and a target not yet reached: the first particle would be shut in
    let mut sim = sim_on(empty_grid(1, 1), 5);
    assert!(!sim.can_run());
    // paused, it can still take a turn of the worker
    sim.paused = true;
    let before = format!("{:?}", sim);
    assert!(!sim.work_batch());
    assert_eq!(format!("{:?}", sim), before);
    sim.paused = false;
    // the target is reached already: the first update ends the run
    sim.particles = 0;
    assert!(sim.can_run());
    sim.run();
    assert!(sim.complete());
    assert!(sim.cur_part.exists);
    assert_eq!(sim.updates, 1);
    // a run that is over can go on in any case
    assert!(sim.can_run());
    // the one cell lies inside the radius: nothing can be put on it
    let mut shut_out = sim_on(empty_grid(1, 1), 5);
    shut_out.handle_spawn_radius_changed(Some(0));
    assert!(shut_out.can_run());
    // a walker on the one cell cannot move
    let mut walking = sim_on(full_grid(1, 1), 5);
    walking.cur_part = Walker { exists: true, pos: (0, 0) };
    assert!(!walking.can_run());
}

#[test]
fn run_on_a_finished_run_keeps_the_count_of_updates() {
    let mut sim = DlaGrid::from(&config(12, 12, 6, None));
    sim.run();
    assert!(sim.complete());
    let updates = sim.updates;
    let stuck = sim.stuck_particles();
    sim.run();
    assert_eq!(sim.updates, updates);
    assert_eq!(sim.stuck_particles(), stuck);
    assert_eq!(sim.particles, 6);
}

#[test]
fn the_pause_button_toggles() {
    let mut sim = DlaGrid::default();
    assert!(sim.paused());
    sim.handle_pause_button_clicked("Start");
    assert!(!sim.paused());
    sim.handle_pause_button_clicked("Stop");
    assert!(sim.paused());
    assert_eq!(PAUSE_BUTTON_TEXT, "Stop");
    assert_eq!(UNPAUSE_BUTTON_TEXT, "Start");
}

#[test]
fn spawn_at_next_to_a_particle_sticks_at_once() {
    let mut sim = DlaGrid::from(&config(5, 5, 10, None));
    sim.spawn_at(1, 1);
    assert!(!sim.cur_part.exists);
    assert_eq!(sim.cur_part.pos, (1, 1));
    assert_eq!(sim.stuck_particles(), 2);
    assert_eq!(sim.grid.cells[1 + 5], Particle { filled: true, id: 2 });
    assert!(!sim.complete());
    assert_eq!(sim.updates, 0);
}

#[test]
fn spawn_at_away_from_all_particles_starts_a_walk() {
    let mut sim = DlaGrid::from(&config(5, 5, 10, None));
    sim.spawn_at(0, 0);
    assert!(sim.cur_part.exists);
    assert_eq!(sim.cur_part.pos, (0, 0));
    assert_eq!(sim.stuck_particles(), 1);
    assert_eq!(sim.grid.cells[0], Particle { filled: true, id: 0 });
    assert_eq!(filled_count(&sim), 2);
}

#[test]
fn walk_to_empties_the_old_cell_and_fills_the_new_one() {
    let mut sim = DlaGrid::from(&config(7, 7, 10, None));
    sim.spawn_at(0, 0);
    sim.walk_to(1, 1);
    assert!(sim.cur_part.exists);
    assert_eq!(sim.cur_part.pos, (1, 1));
    assert!(!sim.grid.cells[0].filled);
    assert!(sim.grid.cells[1 + 7].filled);
    assert_eq!(sim.stuck_particles(), 1);
    // (2, 2) touches the seed at (3, 3)
    sim.walk_to(2, 2);
    assert!(!sim.cur_part.exists);
    assert_eq!(sim.cur_part.pos, (2, 2));
    assert!(!sim.grid.cells[1 + 7].filled);
    assert_eq!(sim.grid.cells[2 + 2 * 7], Particle { filled: true, id: 2 });
    assert_eq!(sim.stuck_particles(), 2);
    assert!(!sim.complete());
}

#[test]
fn the_particle_that_reaches_the_target_ends_the_run() {
    let mut sim = DlaGrid::from(&config(5, 5, 2, None));
    sim.spawn_at(3, 3);
    assert_eq!(sim.stuck_particles(), 2);
    assert!(sim.complete());
    assert!(!sim.cur_part.exists);
}

#[test]
fn a_target_below_the_seeds_ends_the_run_with_the_first_particle() {
    let mut sim = DlaGrid::from(&config(9, 9, 0, None));
    sim.spawn_at(0, 0);
    assert!(sim.complete());
    assert!(sim.cur_part.exists);
    assert_eq!(sim.stuck_particles(), 1);
}

#[test]
fn free_neighbors_come_row_by_row() {
    let mut sim = DlaGrid::from(&config(5, 5, 10, None));
    assert_eq!(
        sim.free_neighbors(1, 1),
        vec![(0, 0), (1, 0), (2, 0), (0, 1), (2, 1), (0, 2), (1, 2)]
    );
    assert_eq!(sim.free_neighbors(0, 0), vec![(1, 0), (0, 1), (1, 1)]);
    assert_eq!(sim.free_neighbors(4, 4), vec![(3, 3), (4, 3), (3, 4)]);
    sim.grid.set_fill(1, true);
    sim.grid.set_fill(5, true);
    sim.grid.set_fill(6, true);
    assert_eq!(sim.free_neighbors(0, 0), Vec::<(usize, usize)>::new());
    assert!(!sim.valid_grid_idx(25));
    assert!(sim.valid_grid_idx(24));
}

#[test]
fn random_walk_moves_to_an_empty_neighbor() {
    let mut sim = DlaGrid::from(&config(6, 6, 10, Some("alledges")));
    sim.grid.set_fill(2 + 2 * 6, true);
    for _ in 0..200 {
        let (x, y) = sim.random_walk(2, 2);
        assert!(x < 6 && y < 6);
        assert!(!sim.grid.filled(x + y * 6));
        assert!(x >= 1 && x <= 3 && y >= 1 && y <= 3);
        assert!((x, y) != (2, 2));
    }
    // in the corner of the inner square only three cells are empty
    for _ in 0..200 {
        let to = sim.random_walk(1, 1);
        assert!(to == (2, 1) || to == (1, 2));
    }
}

#[test]
fn random_loc_finds_an_empty_cell_outside_the_radius() {
    let mut sim = DlaGrid::from(&config(20, 20, 10, None));
    sim.handle_spawn_radius_changed(Some(5));
    for _ in 0..200 {
        let (x, y) = sim.random_loc();
        assert!(x < 20 && y < 20);
        assert!(sim.can_spawn(x, y));
        assert!(!sim.grid.filled(x + y * 20));
        let dx = x as f64 - 10.0;
        let dy = y as f64 - 10.0;
        assert!((dx * dx + dy * dy).sqrt().floor() > 5.0);
        assert!(!sim.complete());
    }
}

#[test]
fn can_spawn_wants_an_empty_cell_beyond_the_radius() {
    let mut sim = DlaGrid::from(&config(10, 10, 10, None));
    assert!(sim.can_spawn(0, 0));
    assert!(!sim.can_spawn(5, 5));
    assert!(sim.can_spawn(5, 4));
    sim.handle_spawn_radius_changed(Some(1));
    assert!(!sim.can_spawn(5, 4)); // distance 1
    assert!(!sim.can_spawn(6, 6)); // distance 1, rounded down
    assert!(sim.can_spawn(7, 5)); // distance 2
    sim.handle_spawn_radius_changed(Some(0));
    assert!(sim.can_spawn(5, 4));
    assert!(!sim.can_spawn(5, 5));
    sim.handle_spawn_radius_changed(None);
    assert!(sim.can_spawn(6, 6));
    assert_eq!(MAX_RETRIES, 1_000);
}

#[test]
fn every_update_keeps_count_and_keeps_the_walker_on_the_grid() {
    let mut sim = DlaGrid::from(&config(15, 12, 40, Some("fourdots")));
    sim.handle_pause_button_clicked(UNPAUSE_BUTTON_TEXT);
    assert_eq!(sim.stuck_particles(), settled_count(&sim));
    let mut steps: u64 = 0;
    while !sim.complete() {
        let before = sim.clone();
        assert!(sim.can_update());
        sim.update();
        steps += 1;
        assert_eq!(sim.updates, steps);
        let (x, y) = sim.cur_part.pos;
        assert!(x < 15 && y < 12);
        assert!(sim.grid.filled(x + y * 15));
        assert_eq!(sim.stuck_particles(), settled_count(&sim));
        if before.cur_part.exists {
            // a step goes to an empty neighbour, and the old cell is left
            let (ox, oy) = before.cur_part.pos;
            assert!(!before.grid.filled(x + y * 15));
            assert!(x.abs_diff(ox) <= 1 && y.abs_diff(oy) <= 1 && (x, y) != (ox, oy));
            assert!(!sim.grid.filled(ox + oy * 15));
        } else {
            assert!(!before.grid.filled(x + y * 15));
        }
        if sim.cur_part.exists {
            assert!(!touches_filled(&sim, x, y));
            assert_eq!(sim.stuck_particles(), before.stuck_particles());
        } else {
            assert!(touches_filled(&sim, x, y));
            assert_eq!(sim.stuck_particles(), before.stuck_particles() + 1);
            assert_eq!(sim.grid.cells[x + y * 15].id, sim.stuck_particles());
        }
        assert_eq!(sim.complete(), sim.stuck_particles() >= 40);
        assert!(steps < 10_000_000);
    }
    assert_eq!(sim.stuck_particles(), 40);
    assert_eq!(filled_count(&sim), 40);
}

#[test]
fn run_ends_with_the_target_reached() {
    let mut sim = DlaGrid::from(&config(30, 30, 25, None));
    sim.run();
    assert!(sim.complete());
    assert_eq!(sim.stuck_particles(), 25);
    assert_eq!(filled_count(&sim), 25);
    assert!(!sim.cur_part.exists);
    assert!(sim.updates >= 24);
    let mut ranks: Vec<usize> =
        sim.grid.cells.iter().filter(|cell| cell.filled).map(|cell| cell.id).collect();
    ranks.sort();
    let mut expected: Vec<usize> = vec![0];
    expected.extend(2..=25);
    assert_eq!(ranks, expected);
}

#[test]
fn run_on_a_finished_simulation_does_nothing() {
    let mut sim = DlaGrid::from(&config(5, 5, 1, None));
    sim.handle_particles_changed(7);
    sim.handle_particles_changed(1);
    assert!(sim.complete());
    let before = format!("{:?}", sim);
    sim.run();
    assert_eq!(format!("{:?}", sim), before);
}

#[test]
fn a_worker_rests_while_the_simulation_is_paused_or_over() {
    let mut sim = DlaGrid::from(&config(30, 30, 50, None));
    let before = format!("{:?}", sim);
    assert!(!sim.work_batch());
    assert_eq!(format!("{:?}", sim), before);
    sim.paused = false;
    sim.is_complete = true;
    let before = format!("{:?}", sim);
    assert!(!sim.work_batch());
    assert_eq!(format!("{:?}", sim), before);
    assert_eq!(IDLE_MILLIS, 100);
}

#[test]
fn a_worker_makes_ten_updates_at_a_time() {
    let mut sim = DlaGrid::from(&config(60, 60, 1_000, None));
    sim.handle_pause_button_clicked(UNPAUSE_BUTTON_TEXT);
    assert!(sim.work_batch());
    assert_eq!(sim.updates, 10);
    assert!(sim.work_batch());
    assert_eq!(sim.updates, 20);
    assert_eq!(BATCH_SIZE, 10);
    assert_eq!(sim.stuck_particles(), settled_count(&sim));
}

#[test]
fn a_worker_stops_counting_when_the_run_ends() {
    let mut sim = DlaGrid::from(&config(5, 5, 2, None));
    sim.handle_pause_button_clicked(UNPAUSE_BUTTON_TEXT);
    let mut turns = 0;
    while sim.work_batch() {
        turns += 1;
        assert!(turns < 1_000_000);
    }
    assert!(sim.complete());
    assert_eq!(sim.stuck_particles(), 2);
    assert!(sim.updates >= 1);
}

#[test]
fn can_update_sees_a_walker_that_is_shut_in() {
    let mut sim = sim_on(empty_grid(1, 1), 5);
    assert!(sim.can_update());
    sim.update();
    assert!(sim.cur_part.exists);
    assert!(!sim.complete());
    assert!(!sim.can_update());
    sim.is_complete = true;
    assert!(sim.can_update());
    let mut counted_out = DlaGrid::from(&config(5, 5, 10, None));
    counted_out.updates = u64::MAX;
    assert!(!counted_out.can_update());
    counted_out.updates = 0;
    counted_out.stuck_particles = usize::MAX;
    assert!(!counted_out.can_update());
}

#[test]
fn choosing_a_seed_starts_over_on_the_same_size() {
    let mut sim = DlaGrid::from(&config(9, 7, 33, None));
    sim.handle_pause_button_clicked(UNPAUSE_BUTTON_TEXT);
    sim.handle_spawn_radius_changed(Some(2));
    sim.handle_particle_color_changed(ColorName::Red);
    sim.handle_background_color_changed(ColorName::White);
    sim.handle_theme_changed(None);
    for _ in 0..30 {
        sim.update();
    }
    sim.handle_grid_type_selected(GridType::BottomEdge);
    assert_eq!(sim.size(), (9, 7));
    assert_eq!(sim.grid_type(), GridType::BottomEdge);
    assert_eq!(sim.stuck_particles(), 9);
    assert_eq!(filled_count(&sim), 9);
    assert!(!sim.cur_part.exists);
    assert_eq!(sim.cur_part.pos, (0, 0));
    assert!(!sim.complete());
    assert!(sim.paused());
    assert_eq!(sim.updates, 0);
    assert!(!sim.do_resize);
    // what stays
    assert_eq!(sim.particles, 33);
    assert_eq!(sim.spawn_radius, Some(2));
    assert_eq!(sim.fill_color, ColorName::Red.get_color());
    assert_eq!(sim.empty_color, ColorName::White.get_color());
    assert_eq!(sim.theme, None);
}

#[test]
fn reset_keeps_the_seed_and_asks_for_a_resize_when_the_size_changes() {
    let mut sim = DlaGrid::from(&config(9, 7, 33, Some("alledges")));
    sim.is_complete = true;
    sim.paused = false;
    sim.handle_reset(9, 7);
    assert!(!sim.do_resize);
    assert_eq!(sim.size(), (9, 7));
    assert_eq!(sim.grid_type(), GridType::AllEdges);
    assert!(!sim.complete());
    assert!(sim.paused());
    assert_eq!(sim.stuck_particles(), 28);
    sim.handle_reset(9, 8);
    assert!(sim.do_resize);
    assert_eq!(sim.size(), (9, 8));
    assert_eq!(sim.stuck_particles(), 30);
    sim.do_resize = false;
    sim.handle_reset(4, 8);
    assert!(sim.do_resize);
    assert_eq!(sim.size(), (4, 8));
    assert_eq!(sim.grid_type(), GridType::AllEdges);
    assert_eq!(sim.particles, 33);
}

#[test]
fn a_loaded_grid_is_shown_as_a_finished_run() {
    let mut sim = DlaGrid::from(&config(9, 9, 33, None));
    sim.handle_pause_button_clicked(UNPAUSE_BUTTON_TEXT);
    sim.spawn_at(0, 0);
    assert!(sim.cur_part.exists);
    let mut grid = empty_grid(4, 3);
    grid.cells[2] = Particle { filled: true, id: 5 };
    grid.cells[7] = Particle { filled: true, id: 6 };
    sim.handle_from_button_clicked(Some(grid));
    assert_eq!(sim.size(), (4, 3));
    assert_eq!(sim.stuck_particles(), 2);
    assert_eq!(sim.particles, 2);
    assert!(sim.complete());
    assert!(sim.do_resize);
    assert!(!sim.cur_part.exists);
    assert!(!sim.paused());
    assert_eq!(sim.grid.cells[7], Particle { filled: true, id: 6 });
    assert_eq!(sim.grid_type(), GridType::Center);
}

#[test]
fn a_loaded_grid_of_the_same_width_asks_for_no_resize() {
    let mut sim = DlaGrid::from(&config(4, 9, 33, None));
    sim.handle_from_button_clicked(Some(empty_grid(4, 3)));
    assert!(!sim.do_resize);
    assert_eq!(sim.size(), (4, 3));
    assert!(sim.complete());
    assert_eq!(sim.particles, 0);
}

#[test]
fn a_failed_load_changes_nothing() {
    let mut sim = DlaGrid::from(&config(4, 9, 33, None));
    let before = format!("{:?}", sim);
    sim.handle_from_button_clicked(None);
    assert_eq!(format!("{:?}", sim), before);
}

#[test]
fn drawing_without_a_theme_uses_the_two_plain_colors() {
    let mut sim = DlaGrid::from(&config(2, 2, 10, None));
    sim.handle_theme_changed(None);
    sim.handle_particle_color_changed(ColorName::Pink);
    sim.handle_background_color_changed(ColorName::Green);
    let mut screen = vec![7u8; 16];
    sim.draw(&mut screen);
    let pink = ColorName::Pink.get_color();
    let green = ColorName::Green.get_color();
    let mut expected = Vec::new();
    expected.extend_from_slice(&green);
    expected.extend_from_slice(&green);
    expected.extend_from_slice(&green);
    expected.extend_from_slice(&pink);
    assert_eq!(screen, expected);
}

#[test]
fn drawing_paints_as_many_cells_as_fit() {
    let mut sim = DlaGrid::from(&config(2, 2, 10, Some("alledges")));
    sim.handle_theme_changed(None);
    let fill = sim.fill_color;
    // room for two cells and a half
    let mut short = vec![7u8; 10];
    sim.draw(&mut short);
    assert_eq!(&short[0..4], &fill);
    assert_eq!(&short[4..8], &fill);
    assert_eq!(&short[8..10], &[7, 7]);
    // room for more cells than there are
    let mut long = vec![7u8; 22];
    sim.draw(&mut long);
    for cell in 0..4 {
        assert_eq!(&long[4 * cell..4 * cell + 4], &fill);
    }
    assert_eq!(&long[16..22], &[7, 7, 7, 7, 7, 7]);
    let mut none: Vec<u8> = Vec::new();
    sim.draw(&mut none);
    assert!(none.is_empty());
}

#[test]
fn drawing_with_a_theme_colors_particles_by_rank() {
    let mut sim = sim_on(empty_grid(4, 1), 500);
    sim.handle_theme_changed(Some(Theme::Vibrant));
    sim.handle_background_color_changed(ColorName::White);
    sim.stuck_particles = 100;
    sim.grid.cells[0] = Particle { filled: true, id: 55 };
    sim.grid.cells[1] = Particle { filled: true, id: 100 };
    sim.grid.cells[2] = Particle { filled: true, id: 0 };
    let gradient = get_gradients(Theme::Vibrant);
    let mut screen = vec![0u8; 16];
    sim.draw(&mut screen);
    assert_eq!(&screen[0..4], &gradient[5]); // 55 / (100 / 10)
    assert_eq!(&screen[4..8], &gradient[9]); // 100 / 10 is beyond the last colour
    assert_eq!(&screen[8..12], &gradient[0]);
    assert_eq!(&screen[12..16], &ColorName::White.get_color());
    // with fewer than ten stuck particles every particle has the first colour
    sim.stuck_particles = 9;
    sim.draw(&mut screen);
    assert_eq!(&screen[0..4], &gradient[0]);
    assert_eq!(&screen[4..8], &gradient[0]);
    // with 25 stuck particles the tenths are two ranks wide
    sim.stuck_particles = 25;
    sim.grid.cells[0].id = 7;
    sim.grid.cells[1].id = 19;
    sim.draw(&mut screen);
    assert_eq!(&screen[0..4], &gradient[3]);
    assert_eq!(&screen[4..8], &gradient[9]);
}

#[test]
fn the_walker_is_a_plain_value() {
    let walker = Walker { exists: true, pos: (3, 4) };
    let copy = walker;
    assert!(walker.exists && copy.exists);
    assert_eq!(copy.pos, (3, 4));
}

#[test]
fn is_wf_wants_the_walker_on_the_grid_and_away_from_particles() {
    let mut sim = DlaGrid::from(&config(5, 5, 10, None));
    assert!(sim.is_wf());
    sim.cur_part = Walker { exists: true, pos: (0, 0) };
    assert!(sim.is_wf());
    sim.cur_part = Walker { exists: true, pos: (1, 1) };
    assert!(!sim.is_wf());
    sim.cur_part = Walker { exists: false, pos: (1, 1) };
    assert!(sim.is_wf());
    sim.cur_part = Walker { exists: false, pos: (5, 0) };
    assert!(!sim.is_wf());
    sim.cur_part = Walker { exists: false, pos: (0, 5) };
    assert!(!sim.is_wf());
    sim.cur_part = Walker { exists: false, pos: (4, 4) };
    sim.grid.cells.pop();
    assert!(!sim.is_wf());
}
