//! Seed points and their random placement.
//!
//! Seeds are drawn with a margin of `radius` from every edge of the grid,
//! so that the square marker later drawn at a seed always stays inside the
//! pixel buffer. Colors are assigned by cycling through the palette in
//! generation order.

use vstd::prelude::*;

verus! {

/// A seed point of the partition: a grid position and its packed color.
#[derive(Clone, Copy, Debug, PartialEq, Eq, Structural)]
pub struct Point {
    pub x: usize,
    pub y: usize,
    pub color: u32,
}

/// The placement invariant: a full `radius x radius` marker block drawn at
/// the seed, extending in the positive x and y directions, stays inside a
/// `width x height` grid.
pub open spec fn seed_in_bounds(p: Point, width: int, height: int, radius: int) -> bool {
    &&& radius <= p.x < width - radius
    &&& radius <= p.y < height - radius
}

/// Declares `rand::rngs::ThreadRng`, the thread-local random generator,
/// so that it can appear in signatures; its values are opaque here.
#[verifier::external_type_specification]
#[verifier::external_body]
pub struct ExThreadRng(rand::rngs::ThreadRng);

/// Relies on `rand::Rng::gen_range` over `lo..hi`: the sample lies in the
/// half-open range, and the call panics only when the range is empty,
/// which the precondition rules out.
#[verifier::external_body]
fn gen_range_usize(rng: &mut rand::rngs::ThreadRng, lo: usize, hi: usize) -> (r: usize)
    requires
        lo < hi,
    ensures
        lo <= r < hi,
{
    rand::Rng::gen_range(rng, lo..hi)
}

/// Draw `n` seeds uniformly inside the margin, cycling colors through the
/// palette. Overlapping seeds are permitted and not checked.
pub fn pick_random_points(
    n: usize,
    width: usize,
    height: usize,
    colors: &Vec<u32>,
    radius: usize,
    rng: &mut rand::rngs::ThreadRng,
) -> (points: Vec<Point>)
    requires
        2 * radius < width,
        2 * radius < height,
        colors@.len() >= 1,
    ensures
        points@.len() == n,
        forall|i: int|
            0 <= i < n ==> seed_in_bounds(
                #[trigger] points@[i],
                width as int,
                height as int,
                radius as int,
            ),
        forall|i: int|
            0 <= i < n ==> (#[trigger] points@[i]).color == colors@[i % colors@.len() as int],
{
    let mut points: Vec<Point> = Vec::new();
    let mut i: usize = 0;
    while i < n
        invariant
            0 <= i <= n,
            2 * radius < width,
            2 * radius < height,
            colors@.len() >= 1,
            points@.len() == i,
            forall|j: int|
                0 <= j < i ==> seed_in_bounds(
                    #[trigger] points@[j],
                    width as int,
                    height as int,
                    radius as int,
                ),
            forall|j: int|
                0 <= j < i ==> (#[trigger] points@[j]).color == colors@[j % colors@.len() as int],
        decreases n - i,
    {
        let x = gen_range_usize(rng, radius, width - radius);
        let y = gen_range_usize(rng, radius, height - radius);
        let color = colors[i % colors.len()];
        let point = Point { x, y, color };
        points.push(point);
        i = i + 1;
    }
    points
}

} // verus!
