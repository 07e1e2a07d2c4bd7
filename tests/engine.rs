use life_engine::game::{Game, CELL_SIZE, HEIGHT, TICK_RATE_MS, WIDTH};
use life_engine::model::{ColorScheme, BACKGROUND, LAVENDER};
use life_engine::pattern::{random_scene, Pattern, PATTERN_COUNT};
use life_engine::random::{Rng, DEFAULT_SEED};

fn plain(width: usize, height: usize) -> Game {
    Game::with_config(width, height, 1, false, ColorScheme::Regional, 0).unwrap()
}

fn live_set(g: &Game) -> Vec<(usize, usize)> {
    let mut out = Vec::new();
    for y in 0..g.height() {
        for x in 0..g.width() {
            if g.age(x, y) > 0 {
                out.push((x, y));
            }
        }
    }
    out
}

#[test]
fn new_engine_is_seeded_and_sized() {
    let g = Game::new();
    assert_eq!(g.width(), WIDTH);
    assert_eq!(g.height(), HEIGHT);
    assert_eq!(g.cell_size(), CELL_SIZE);
    assert_eq!(g.get_generation(), 0);
    assert!(!g.is_paused());
    assert_eq!(g.buffer().len(), WIDTH * CELL_SIZE * HEIGHT * CELL_SIZE);
    assert_eq!(g.get_live_cells(), 364);
    // the flower at the centre
    assert_eq!(g.age(50, 50), 1);
    assert_eq!(g.age(54, 54), 1);
}

#[test]
fn showcase_evolves() {
    let mut g = Game::new();
    g.update(TICK_RATE_MS);
    assert_eq!(g.get_generation(), 1);
    assert_eq!(g.get_live_cells(), 421);
    g.update(2 * TICK_RATE_MS);
    assert_eq!(g.get_live_cells(), 412);
}

#[test]
fn neighbor_counts_wrap_and_stay_within_eight() {
    let mut g = plain(3, 3);
    for y in 0..3 {
        for x in 0..3 {
            g.add_cell(x, y);
        }
    }
    for y in 0..3 {
        for x in 0..3 {
            assert_eq!(g.count_live_neighbors(x, y), 8);
        }
    }
    let mut h = plain(5, 5);
    h.add_cell(4, 4);
    assert_eq!(h.count_live_neighbors(0, 0), 1);
    assert_eq!(h.count_live_neighbors(4, 0), 1);
    assert_eq!(h.count_live_neighbors(2, 2), 0);
    assert_eq!(h.count_live_neighbors(4, 4), 0);
}

#[test]
fn stamp_wraps_around_the_torus() {
    let mut g = plain(10, 10);
    g.stamp(Pattern::Glider, 9, 9);
    // glider offsets (1,0),(2,1),(0,2),(1,2),(2,2) from (9,9)
    let mut cells = live_set(&g);
    cells.sort();
    let mut expected = vec![(0, 9), (1, 0), (9, 1), (0, 1), (1, 1)];
    expected.sort();
    assert_eq!(cells, expected);
}

#[test]
fn set_cells_takes_offsets_modulo_dimensions() {
    let mut g = plain(4, 3);
    g.set_cells(3, 2, &vec![(1, 1), (5, 0)]);
    let mut cells = live_set(&g);
    cells.sort();
    assert_eq!(cells, vec![(0, 0), (0, 2)]);
}

#[test]
fn blinker_oscillates_with_period_two() {
    let mut g = plain(10, 10);
    g.stamp(Pattern::Blinker, 3, 5);
    g.update(0);
    let mut cells = live_set(&g);
    cells.sort();
    assert_eq!(cells, vec![(4, 4), (4, 5), (4, 6)]);
    g.update(0);
    let mut cells = live_set(&g);
    cells.sort();
    assert_eq!(cells, vec![(3, 5), (4, 5), (5, 5)]);
    assert_eq!(g.get_generation(), 2);
}

#[test]
fn lonely_and_crowded_cells_die_and_three_give_birth() {
    let mut g = plain(8, 8);
    g.add_cell(1, 1);
    g.update(0);
    assert_eq!(g.get_live_cells(), 0);

    // an L of three: the corner cell (2,2) is born, the three survive
    let mut g = plain(8, 8);
    g.add_cell(1, 1);
    g.add_cell(2, 1);
    g.add_cell(1, 2);
    g.update(0);
    assert_eq!(g.age(2, 2), 1);
    assert_eq!(g.age(1, 1), 1);
    assert_eq!(g.get_live_cells(), 4);

    // a plus: the centre has four neighbours and dies
    let mut g = plain(8, 8);
    for (x, y) in [(3, 3), (2, 3), (4, 3), (3, 2), (3, 4)] {
        g.add_cell(x, y);
    }
    assert_eq!(g.count_live_neighbors(3, 3), 4);
    g.update(0);
    assert_eq!(g.age(3, 3), 0);
}

#[test]
fn block_is_still() {
    let mut g = plain(6, 6);
    g.stamp(Pattern::Block, 5, 5);
    let before = live_set(&g);
    for i in 1..=20 {
        g.update(0);
        assert_eq!(live_set(&g), before);
        assert_eq!(g.get_generation(), i);
    }
}

#[test]
fn clear_empties_and_resets_generation() {
    let mut g = Game::new();
    g.update(TICK_RATE_MS);
    g.clear();
    assert_eq!(g.get_live_cells(), 0);
    assert_eq!(g.get_generation(), 0);
    // the buffer keeps its pixels until the next render
    let mut h = plain(2, 2);
    h.add_cell(0, 0);
    h.render();
    h.clear();
    assert_eq!(h.buffer()[0], 0xffd6ff);
    h.render();
    assert_eq!(h.buffer()[0], BACKGROUND);
}

#[test]
fn pause_stops_ticks_and_second_toggle_resumes() {
    let mut g = plain(10, 10);
    g.stamp(Pattern::Blinker, 3, 5);
    let start = live_set(&g);
    g.toggle_pause();
    assert!(g.is_paused());
    g.update(0);
    assert_eq!(live_set(&g), start);
    assert_eq!(g.get_generation(), 0);
    g.toggle_pause();
    g.update(0);
    assert_eq!(g.get_generation(), 1);
    assert_eq!(live_set(&g), vec![(4, 4), (4, 5), (4, 6)]);
}

#[test]
fn add_cell_off_grid_is_ignored() {
    let mut g = plain(5, 4);
    g.add_cell(5, 0);
    g.add_cell(0, 4);
    g.add_cell(100, 100);
    assert_eq!(g.get_live_cells(), 0);
    g.add_cell(4, 3);
    assert_eq!(g.get_live_cells(), 1);
    assert_eq!(g.age(4, 3), 1);
}

#[test]
fn tick_gate_waits_for_the_interval() {
    let mut g = Game::with_config(10, 10, 1, false, ColorScheme::Regional, 70).unwrap();
    g.stamp(Pattern::Blinker, 3, 5);
    g.update(10);
    assert_eq!(g.get_generation(), 0);
    g.update(70);
    assert_eq!(g.get_generation(), 1);
    g.update(100);
    assert_eq!(g.get_generation(), 1);
    g.update(140);
    assert_eq!(g.get_generation(), 2);
}

#[test]
fn render_is_deterministic() {
    let mut a = Game::new();
    let mut b = Game::new();
    for t in 1..=5u64 {
        a.update(t * TICK_RATE_MS);
        b.update(t * TICK_RATE_MS);
    }
    a.render();
    b.render();
    assert_eq!(a.buffer(), b.buffer());
    assert!(a.buffer().iter().any(|&c| c != BACKGROUND));
}

#[test]
fn render_fills_each_block_with_its_cell_colour() {
    let mut g = Game::with_config(3, 2, 2, false, ColorScheme::Regional, 0).unwrap();
    g.add_cell(1, 0);
    g.render();
    let cw = 6;
    for py in 0..4 {
        for px in 0..6 {
            let expected = if px / 2 == 1 && py / 2 == 0 { 0xffd6ff } else { BACKGROUND };
            assert_eq!(g.buffer()[py * cw + px], expected);
        }
    }
}

#[test]
fn regional_palette_cycles_with_region_and_generation() {
    let mut g = Game::with_config(45, 45, 1, false, ColorScheme::Regional, 0).unwrap();
    g.add_cell(0, 0);
    g.add_cell(20, 0);
    g.add_cell(40, 20);
    g.render();
    assert_eq!(g.buffer()[0], 0xffd6ff);
    assert_eq!(g.buffer()[20], 0xe7c6ff);
    assert_eq!(g.buffer()[20 * 45 + 40], 0xb8c0ff);
}

#[test]
fn uniform_scheme_uses_one_colour() {
    let mut g = Game::with_config(4, 4, 1, false, ColorScheme::Uniform, 0).unwrap();
    g.add_cell(2, 3);
    g.render();
    assert_eq!(g.buffer()[3 * 4 + 2], LAVENDER);
    assert_eq!(g.buffer()[0], BACKGROUND);
}

#[test]
fn aged_cells_count_generations_and_saturate() {
    let mut g = Game::with_config(6, 6, 1, true, ColorScheme::ByAge, 0).unwrap();
    g.stamp(Pattern::Block, 1, 1);
    for k in 1..=10usize {
        g.update(0);
        assert_eq!(g.age(1, 1) as usize, k + 1);
        assert_eq!(g.age(2, 2) as usize, k + 1);
        assert_eq!(g.age(0, 0), 0);
    }
    for _ in 0..300 {
        g.update(0);
    }
    assert_eq!(g.age(1, 1), 255);
    assert_eq!(g.get_live_cells(), 4);
}

#[test]
fn aged_colours_follow_age() {
    let mut g = Game::with_config(6, 6, 1, true, ColorScheme::ByAge, 0).unwrap();
    g.stamp(Pattern::Block, 1, 1);
    g.render();
    assert_eq!(g.buffer()[6 + 1], 0xffd6ff);
    g.update(0);
    g.update(0);
    g.render();
    // age 3: palette entry 2
    assert_eq!(g.buffer()[6 + 1], 0xc8b6ff);
}

#[test]
fn boolean_cells_keep_age_one() {
    let mut g = plain(6, 6);
    g.stamp(Pattern::Block, 1, 1);
    g.update(0);
    g.update(0);
    assert_eq!(g.age(1, 1), 1);
}

#[test]
fn pattern_catalogue_sizes() {
    assert_eq!(Pattern::Glider.offsets().len(), 5);
    assert_eq!(Pattern::Pulsar.offsets().len(), 48);
    assert_eq!(Pattern::Pentadecathlon.offsets().len(), 22);
    assert_eq!(Pattern::GosperGliderGun.offsets().len(), 36);
    assert_eq!(Pattern::RPentomino.offsets(), vec![(1, 0), (2, 0), (0, 1), (1, 1), (1, 2)]);
}

#[test]
fn seed_scene_stamps_in_order() {
    let mut g = plain(20, 20);
    g.seed_scene(&vec![(Pattern::Block, 0, 0), (Pattern::Blinker, 10, 10)]);
    assert_eq!(g.get_live_cells(), 7);
    assert_eq!(life_engine::game::showcase().len(), 36);
}

#[test]
fn scatter_sets_cells_whose_draw_is_below_threshold() {
    let mut g = plain(10, 10);
    g.scatter(9, 9, 3, &vec![0, 10, 200, 5, 300, 0], 100);
    let mut cells = live_set(&g);
    cells.sort();
    assert_eq!(cells, vec![(0, 9), (1, 0), (9, 0), (9, 9)]);
}

#[test]
fn scatter_with_zero_threshold_adds_nothing() {
    let mut g = plain(10, 10);
    g.scatter(0, 0, 4, &vec![0, 1, 2, 3, 4, 5, 6, 7], 0);
    assert_eq!(g.get_live_cells(), 0);
}

#[test]
fn with_config_refuses_empty_or_oversized_canvas() {
    assert!(Game::with_config(0, 5, 1, false, ColorScheme::Regional, 0).is_none());
    assert!(Game::with_config(5, 0, 1, false, ColorScheme::Regional, 0).is_none());
    assert!(Game::with_config(5, 5, 0, false, ColorScheme::Regional, 0).is_none());
    assert!(Game::with_config(usize::MAX, 2, 1, false, ColorScheme::Regional, 0).is_none());
    let g = Game::with_config(3, 2, 4, true, ColorScheme::ByAge, 9).unwrap();
    assert_eq!(g.buffer().len(), 96);
    assert!(g.buffer().iter().all(|&c| c == BACKGROUND));
    assert_eq!(g.get_live_cells(), 0);
}

#[test]
fn rng_steps_are_xorshift64() {
    let mut r = Rng::new(1);
    assert_eq!(r.next_u64(), 1082269761);
    assert_eq!(r.next_u64(), 1152992998833853505);
    assert_eq!(r.next_u64(), 11177516664432764457);
    let mut d = Rng::new(1);
    assert_eq!(d.draws(3), vec![0, 268452102, 2602468399]);
}

#[test]
fn rng_seed_zero_uses_default_and_same_seed_repeats() {
    let mut a = Rng::new(0);
    let mut b = Rng::new(DEFAULT_SEED);
    assert_eq!(a.draws(5), b.draws(5));
    let mut c = Rng::new(7);
    let mut e = Rng::new(7);
    assert_eq!(c.next_u64(), e.next_u64());
    assert_ne!(Rng::new(7).next_u64(), Rng::new(8).next_u64());
}

#[test]
fn random_scene_is_reproducible_from_the_seed() {
    let scene = random_scene(&mut Rng::new(42), 2, 50, 40);
    assert_eq!(scene, vec![(Pattern::Loaf, 21, 34), (Pattern::Toad, 12, 27)]);
    let again = random_scene(&mut Rng::new(42), 2, 50, 40);
    assert_eq!(scene, again);
    let big = random_scene(&mut Rng::new(3), 50, 7, 9);
    assert_eq!(big.len(), 50);
    assert!(big.iter().all(|&(_, x, y)| x < 7 && y < 9));
}

#[test]
fn pattern_indices_follow_the_catalogue() {
    assert_eq!(PATTERN_COUNT, 19);
    assert_eq!(Pattern::from_index(0), Pattern::Flower);
    assert_eq!(Pattern::from_index(7), Pattern::Loaf);
    assert_eq!(Pattern::from_index(18), Pattern::GosperGliderGun);
}

#[test]
fn random_seeding_of_two_engines_matches() {
    let mut a = plain(30, 30);
    let mut b = plain(30, 30);
    a.seed_scene(&random_scene(&mut Rng::new(5), 4, 30, 30));
    b.seed_scene(&random_scene(&mut Rng::new(5), 4, 30, 30));
    a.scatter(0, 0, 10, &Rng::new(9).draws(100), 1 << 31);
    b.scatter(0, 0, 10, &Rng::new(9).draws(100), 1 << 31);
    assert_eq!(live_set(&a), live_set(&b));
    assert!(a.get_live_cells() > 0);
}
