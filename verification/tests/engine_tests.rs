use voronoi::engine::{determine_pixel_allegiance, draw_points, render_frame};
use voronoi::metric::{distance, euclidian_distance, manhattan_distance, DistanceFn};
use voronoi::seeds::{pick_random_points, Point};
use voronoi::MARKER_COLOR;

const RED: u32 = 0xff0000;
const BLUE: u32 = 0x0000ff;

fn example_seeds() -> Vec<Point> {
    vec![Point { x: 2, y: 2, color: RED }, Point { x: 7, y: 7, color: BLUE }]
}

#[test]
fn euclidian_is_squared_distance() {
    assert_eq!(euclidian_distance(2, 2, 4, 4), 8);
    assert_eq!(euclidian_distance(7, 7, 4, 4), 18);
    assert_eq!(euclidian_distance(4, 4, 4, 4), 0);
    assert_eq!(euclidian_distance(2, 2, 7, 7), 50);
}

#[test]
fn manhattan_sums_absolute_offsets() {
    assert_eq!(manhattan_distance(2, 2, 4, 4), 4);
    assert_eq!(manhattan_distance(7, 7, 4, 4), 6);
    assert_eq!(manhattan_distance(4, 4, 4, 4), 0);
    assert_eq!(manhattan_distance(0, 9, 9, 0), 18);
}

#[test]
fn distance_dispatches_on_the_metric() {
    assert_eq!(distance(&DistanceFn::Euclidian, 2, 2, 4, 4), 8);
    assert_eq!(distance(&DistanceFn::Manhattan, 2, 2, 4, 4), 4);
}

#[test]
fn partition_matches_the_worked_example() {
    let seeds = example_seeds();
    let mut buffer = vec![u32::MAX; 100];
    determine_pixel_allegiance(&seeds, &mut buffer, 10, 10, &DistanceFn::Euclidian);
    assert_eq!(buffer[2 * 10 + 2], RED);
    assert_eq!(buffer[7 * 10 + 7], BLUE);
    assert_eq!(buffer[4 * 10 + 4], RED);

    determine_pixel_allegiance(&seeds, &mut buffer, 10, 10, &DistanceFn::Manhattan);
    assert_eq!(buffer[4 * 10 + 4], RED);
}

#[test]
fn single_seed_saturates_the_buffer() {
    let seeds = vec![Point { x: 3, y: 3, color: 0xabcdef }];
    let mut buffer = vec![u32::MAX; 8 * 6];
    determine_pixel_allegiance(&seeds, &mut buffer, 8, 6, &DistanceFn::Euclidian);
    for pixel in &buffer {
        assert_eq!(*pixel, 0xabcdef);
    }
}

#[test]
fn no_seeds_leaves_the_buffer_untouched() {
    let seeds: Vec<Point> = Vec::new();
    let mut buffer = vec![0x123456u32; 12];
    determine_pixel_allegiance(&seeds, &mut buffer, 4, 3, &DistanceFn::Euclidian);
    assert_eq!(buffer, vec![0x123456u32; 12]);
}

#[test]
fn equal_scores_go_to_the_earlier_seed() {
    let seeds = vec![Point { x: 2, y: 2, color: RED }, Point { x: 6, y: 2, color: BLUE }];
    let mut buffer = vec![u32::MAX; 9 * 5];
    determine_pixel_allegiance(&seeds, &mut buffer, 9, 5, &DistanceFn::Euclidian);
    // pixel (4,2) is at squared distance 4 from both seeds
    assert_eq!(buffer[2 * 9 + 4], RED);
}

#[test]
fn the_metrics_can_disagree_on_a_pixel() {
    let seeds = vec![Point { x: 0, y: 0, color: RED }, Point { x: 3, y: 1, color: BLUE }];
    let mut buffer = vec![u32::MAX; 15];
    // pixel (2,0): squared Euclidean scores 4 vs 2, Manhattan scores 2 vs 2
    determine_pixel_allegiance(&seeds, &mut buffer, 5, 3, &DistanceFn::Euclidian);
    assert_eq!(buffer[2], BLUE);
    determine_pixel_allegiance(&seeds, &mut buffer, 5, 3, &DistanceFn::Manhattan);
    assert_eq!(buffer[2], RED);
}

#[test]
fn markers_overwrite_their_blocks_only() {
    let seeds = example_seeds();
    let mut buffer = vec![u32::MAX; 100];
    determine_pixel_allegiance(&seeds, &mut buffer, 10, 10, &DistanceFn::Euclidian);
    let before = buffer.clone();
    draw_points(&seeds, &mut buffer, 2, 10);
    for seed in &seeds {
        for k in 0..2 {
            for j in 0..2 {
                assert_eq!(buffer[(seed.y + k) * 10 + seed.x + j], MARKER_COLOR);
            }
        }
    }
    for y in 0..10usize {
        for x in 0..10usize {
            let in_block = seeds
                .iter()
                .any(|s| s.x <= x && x < s.x + 2 && s.y <= y && y < s.y + 2);
            if !in_block {
                assert_eq!(buffer[y * 10 + x], before[y * 10 + x]);
            }
        }
    }
}

#[test]
fn render_frame_layers_markers_over_the_partition() {
    let seeds = example_seeds();
    let mut buffer = vec![u32::MAX; 100];
    render_frame(&seeds, &mut buffer, 10, 10, 2, &DistanceFn::Euclidian);
    assert_eq!(buffer[2 * 10 + 2], MARKER_COLOR);
    assert_eq!(buffer[7 * 10 + 7], MARKER_COLOR);
    assert_eq!(buffer[4 * 10 + 4], RED);
    assert_eq!(buffer[9 * 10 + 9], BLUE);
}

#[test]
fn generated_seeds_respect_the_margin() {
    let colors = vec![RED, BLUE, 0x00ff00];
    let mut rng = rand::thread_rng();
    let points = pick_random_points(50, 100, 80, &colors, 5, &mut rng);
    assert_eq!(points.len(), 50);
    for (i, p) in points.iter().enumerate() {
        assert!(5 <= p.x && p.x < 100 - 5);
        assert!(5 <= p.y && p.y < 80 - 5);
        assert_eq!(p.color, colors[i % colors.len()]);
    }
}
