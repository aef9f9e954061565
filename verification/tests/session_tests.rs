use voronoi::metric::DistanceFn;
use voronoi::palette::default_palette;
use voronoi::session::{ConfigError, Session};
use voronoi::{MARKER_COLOR, MARKER_RADIUS, MAX_SEEDS, MIN_SEEDS};

fn new_session(n: usize, width: usize, height: usize) -> Session {
    let colors = default_palette().expect("the fixed palette must decode");
    let mut rng = rand::thread_rng();
    Session::new(n, width, height, DistanceFn::Euclidian, colors, MARKER_RADIUS, &mut rng)
        .expect("a valid configuration")
}

#[test]
fn new_session_is_consistent() {
    let s = new_session(10, 200, 150);
    assert_eq!(s.params.n, 10);
    assert_eq!(s.params.width, 200);
    assert_eq!(s.params.height, 150);
    assert_eq!(s.radius, MARKER_RADIUS);
    assert_eq!(s.seeds.len(), 10);
    assert_eq!(s.buffer.len(), 200 * 150);
    for p in &s.seeds {
        assert!(MARKER_RADIUS <= p.x && p.x < 200 - MARKER_RADIUS);
        assert!(MARKER_RADIUS <= p.y && p.y < 150 - MARKER_RADIUS);
    }
}

#[test]
fn markers_cover_every_seed_after_a_recompute() {
    let s = new_session(12, 120, 90);
    for seed in &s.seeds {
        for k in 0..MARKER_RADIUS {
            for j in 0..MARKER_RADIUS {
                assert_eq!(s.buffer[(seed.y + k) * 120 + seed.x + j], MARKER_COLOR);
            }
        }
    }
}

#[test]
fn rejects_small_dimensions() {
    let colors = default_palette().expect("the fixed palette must decode");
    let mut rng = rand::thread_rng();
    let r = Session::new(5, 10, 600, DistanceFn::Euclidian, colors, MARKER_RADIUS, &mut rng);
    assert_eq!(r.err(), Some(ConfigError::DimensionsTooSmall));
}

#[test]
fn rejects_bad_seed_counts() {
    let colors = default_palette().expect("the fixed palette must decode");
    let mut rng = rand::thread_rng();
    let r = Session::new(0, 800, 600, DistanceFn::Euclidian, colors.clone(), MARKER_RADIUS, &mut rng);
    assert_eq!(r.err(), Some(ConfigError::SeedCountOutOfRange));
    let r = Session::new(101, 800, 600, DistanceFn::Euclidian, colors, MARKER_RADIUS, &mut rng);
    assert_eq!(r.err(), Some(ConfigError::SeedCountOutOfRange));
}

#[test]
fn rejects_an_empty_palette() {
    let mut rng = rand::thread_rng();
    let r = Session::new(5, 800, 600, DistanceFn::Euclidian, Vec::new(), MARKER_RADIUS, &mut rng);
    assert_eq!(r.err(), Some(ConfigError::EmptyPalette));
}

#[test]
fn increase_clamps_at_the_maximum() {
    let mut rng = rand::thread_rng();
    let mut s = new_session(MAX_SEEDS, 200, 150);
    s.increase_seeds(&mut rng);
    assert_eq!(s.params.n, MAX_SEEDS);
    assert_eq!(s.seeds.len(), MAX_SEEDS);
}

#[test]
fn decrease_clamps_at_the_minimum() {
    let mut rng = rand::thread_rng();
    let mut s = new_session(MIN_SEEDS, 200, 150);
    s.decrease_seeds(&mut rng);
    assert_eq!(s.params.n, MIN_SEEDS);
    assert_eq!(s.seeds.len(), MIN_SEEDS);
}

#[test]
fn the_count_moves_one_step_at_a_time() {
    let mut rng = rand::thread_rng();
    let mut s = new_session(10, 200, 150);
    s.increase_seeds(&mut rng);
    assert_eq!(s.params.n, 11);
    s.decrease_seeds(&mut rng);
    s.decrease_seeds(&mut rng);
    assert_eq!(s.params.n, 9);
    assert_eq!(s.seeds.len(), 9);
    assert_eq!(s.buffer.len(), 200 * 150);
}

#[test]
fn repeated_clamped_commands_are_no_ops_on_the_count() {
    let mut rng = rand::thread_rng();
    let mut s = new_session(MIN_SEEDS, 200, 150);
    for _ in 0..5 {
        s.decrease_seeds(&mut rng);
        assert_eq!(s.params.n, MIN_SEEDS);
    }
}

#[test]
fn switching_the_metric_keeps_the_seeds() {
    let mut s = new_session(20, 200, 150);
    let seeds_before = s.seeds.clone();
    s.select_metric(DistanceFn::Manhattan);
    assert_eq!(s.seeds, seeds_before);
    assert_eq!(s.params.distance, DistanceFn::Manhattan);
    assert_eq!(s.params.n, 20);
    // markers still sit on top of the new partition
    for seed in &s.seeds {
        assert_eq!(s.buffer[seed.y * 200 + seed.x], MARKER_COLOR);
    }
}

#[test]
fn regenerate_keeps_the_parameters() {
    let mut rng = rand::thread_rng();
    let mut s = new_session(15, 200, 150);
    s.regenerate(&mut rng);
    assert_eq!(s.params.n, 15);
    assert_eq!(s.params.distance, DistanceFn::Euclidian);
    assert_eq!(s.seeds.len(), 15);
    assert_eq!(s.buffer.len(), 200 * 150);
}
