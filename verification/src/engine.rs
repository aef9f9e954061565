//! The partition engine: the nearest-seed pixel classifier and the marker
//! overlay.
//!
//! For every pixel the engine scans all seeds in order, keeps the first
//! seed achieving the minimal metric score (a strict `<` comparison, so a
//! later seed with an equal score never displaces an earlier one), and
//! writes that seed's color. The marker pass then overwrites a
//! `radius x radius` block at each seed with the marker color.

use vstd::prelude::*;

use crate::MARKER_COLOR;
use crate::MAX_DIM;
use crate::metric::{lemma_distance_range, spec_distance, distance, DistanceFn};
use crate::seeds::{pick_random_points, seed_in_bounds, Point};
use crate::session::Params;

verus! {

/// The row-major linear index of pixel `(x, y)` in a grid `width` wide.
pub open spec fn pix(width: int, x: int, y: int) -> int {
    y * width + x
}

/// The metric score of seed `i` at pixel `(x, y)`.
pub open spec fn dist_to(seeds: Seq<Point>, m: DistanceFn, i: int, x: int, y: int) -> int {
    spec_distance(m, seeds[i].x as int, seeds[i].y as int, x, y)
}

/// The index of the first seed among `seeds[0..k]` achieving the minimal
/// score at `(x, y)`: a later seed wins only with a strictly smaller score.
pub open spec fn winner_upto(seeds: Seq<Point>, m: DistanceFn, x: int, y: int, k: int) -> int
    decreases k,
{
    if k <= 1 {
        0
    } else {
        let prev = winner_upto(seeds, m, x, y, k - 1);
        if dist_to(seeds, m, k - 1, x, y) < dist_to(seeds, m, prev, x, y) {
            k - 1
        } else {
            prev
        }
    }
}

/// The seed that owns pixel `(x, y)`: the lowest index among the seeds of
/// minimal score.
pub open spec fn winner(seeds: Seq<Point>, m: DistanceFn, x: int, y: int) -> int {
    winner_upto(seeds, m, x, y, seeds.len() as int)
}

/// The color the partition assigns to pixel `(x, y)`.
pub open spec fn pixel_color(seeds: Seq<Point>, m: DistanceFn, x: int, y: int) -> u32 {
    seeds[winner(seeds, m, x, y)].color
}

/// A buffer that holds exactly the partition of the grid: every pixel
/// carries the color of its winning seed.
pub open spec fn partitioned(
    buffer: Seq<u32>,
    seeds: Seq<Point>,
    m: DistanceFn,
    width: int,
    height: int,
) -> bool {
    &&& buffer.len() == width * height
    &&& forall|x: int, y: int|
        0 <= x < width && 0 <= y < height ==> buffer[#[trigger] pix(width, x, y)] == pixel_color(
            seeds,
            m,
            x,
            y,
        )
}

/// Whether `(x, y)` lies in the `radius x radius` marker block of seed `p`.
pub open spec fn in_marker_of(p: Point, radius: int, x: int, y: int) -> bool {
    &&& p.x <= x < p.x + radius
    &&& p.y <= y < p.y + radius
}

/// Whether `(x, y)` lies in the marker block of some seed.
pub open spec fn covered_by_marker(seeds: Seq<Point>, radius: int, x: int, y: int) -> bool {
    exists|i: int| 0 <= i < seeds.len() && in_marker_of(#[trigger] seeds[i], radius, x, y)
}

/// A fully recomputed frame: marker blocks carry the marker color, and
/// every other pixel carries the color of its winning seed.
pub open spec fn rendered(
    buffer: Seq<u32>,
    seeds: Seq<Point>,
    m: DistanceFn,
    width: int,
    height: int,
    radius: int,
) -> bool {
    &&& buffer.len() == width * height
    &&& forall|x: int, y: int|
        0 <= x < width && 0 <= y < height && covered_by_marker(seeds, radius, x, y)
            ==> buffer[#[trigger] pix(width, x, y)] == MARKER_COLOR
    &&& forall|x: int, y: int|
        0 <= x < width && 0 <= y < height && !covered_by_marker(seeds, radius, x, y)
            ==> buffer[#[trigger] pix(width, x, y)] == pixel_color(seeds, m, x, y)
}

/// Row-major indices of grid pixels stay inside the buffer.
pub proof fn lemma_pix_bounds(width: int, height: int, x: int, y: int)
    requires
        0 <= x < width,
        0 <= y < height,
    ensures
        0 <= pix(width, x, y) < width * height,
{
    assert(0 <= y * width + x < width * height) by (nonlinear_arith)
        requires
            0 <= x < width,
            0 <= y < height,
    ;
}

/// Distinct pixels of the grid have distinct row-major indices.
pub proof fn lemma_pix_injective(width: int, x1: int, y1: int, x2: int, y2: int)
    requires
        0 <= x1 < width,
        0 <= x2 < width,
        0 <= y1,
        0 <= y2,
        x1 != x2 || y1 != y2,
    ensures
        pix(width, x1, y1) != pix(width, x2, y2),
{
    assert(y1 * width + x1 != y2 * width + x2) by (nonlinear_arith)
        requires
            0 <= x1 < width,
            0 <= x2 < width,
            0 <= y1,
            0 <= y2,
            x1 != x2 || y1 != y2,
    ;
}

proof fn lemma_winner_upto_nearest(seeds: Seq<Point>, m: DistanceFn, x: int, y: int, k: int)
    requires
        1 <= k <= seeds.len(),
    ensures
        0 <= winner_upto(seeds, m, x, y, k) < k,
        forall|j: int|
            0 <= j < k ==> dist_to(seeds, m, winner_upto(seeds, m, x, y, k), x, y)
                <= #[trigger] dist_to(seeds, m, j, x, y),
        forall|j: int|
            0 <= j < winner_upto(seeds, m, x, y, k) ==> #[trigger] dist_to(seeds, m, j, x, y)
                > dist_to(seeds, m, winner_upto(seeds, m, x, y, k), x, y),
    decreases k,
{
    if k > 1 {
        lemma_winner_upto_nearest(seeds, m, x, y, k - 1);
    }
}

/// Nearest-seed law: with at least one seed, the winning index of a pixel
/// is in range, no seed scores strictly lower, and every seed of lower
/// index scores strictly higher — among equal scores the lowest index wins.
pub proof fn lemma_winner_is_nearest(seeds: Seq<Point>, m: DistanceFn, x: int, y: int)
    requires
        seeds.len() >= 1,
    ensures
        0 <= winner(seeds, m, x, y) < seeds.len(),
        forall|j: int|
            0 <= j < seeds.len() ==> dist_to(seeds, m, winner(seeds, m, x, y), x, y)
                <= #[trigger] dist_to(seeds, m, j, x, y),
        forall|j: int|
            0 <= j < winner(seeds, m, x, y) ==> #[trigger] dist_to(seeds, m, j, x, y) > dist_to(
                seeds,
                m,
                winner(seeds, m, x, y),
                x,
                y,
            ),
{
    lemma_winner_upto_nearest(seeds, m, x, y, seeds.len() as int);
}

/// Single-seed saturation law: a buffer partitioned over exactly one seed
/// holds that seed's color at every pixel of the grid.
pub proof fn lemma_single_seed_saturation(
    buffer: Seq<u32>,
    seeds: Seq<Point>,
    m: DistanceFn,
    width: int,
    height: int,
)
    requires
        seeds.len() == 1,
        partitioned(buffer, seeds, m, width, height),
    ensures
        forall|x: int, y: int|
            0 <= x < width && 0 <= y < height ==> buffer[#[trigger] pix(width, x, y)]
                == seeds[0].color,
{
    assert forall|x: int, y: int|
        0 <= x < width && 0 <= y < height implies buffer[#[trigger] pix(width, x, y)]
        == seeds[0].color by {
        assert(winner(seeds, m, x, y) == 0);
        assert(buffer[pix(width, x, y)] == pixel_color(seeds, m, x, y));
    }
}

/// Metric-switch law: two rendered frames over the same seed set differ
/// only at pixels where the two metrics pick different winning seeds.
pub proof fn lemma_metric_switch_agreement(
    b1: Seq<u32>,
    b2: Seq<u32>,
    seeds: Seq<Point>,
    m1: DistanceFn,
    m2: DistanceFn,
    width: int,
    height: int,
    radius: int,
)
    requires
        rendered(b1, seeds, m1, width, height, radius),
        rendered(b2, seeds, m2, width, height, radius),
    ensures
        forall|x: int, y: int|
            0 <= x < width && 0 <= y < height && winner(seeds, m1, x, y) == winner(seeds, m2, x, y)
                ==> b1[#[trigger] pix(width, x, y)] == b2[pix(width, x, y)],
{
    assert forall|x: int, y: int|
        0 <= x < width && 0 <= y < height && winner(seeds, m1, x, y) == winner(
            seeds,
            m2,
            x,
            y,
        ) implies b1[#[trigger] pix(width, x, y)] == b2[pix(width, x, y)] by {
        if covered_by_marker(seeds, radius, x, y) {
        } else {
            assert(b1[pix(width, x, y)] == pixel_color(seeds, m1, x, y));
            assert(b2[pix(width, x, y)] == pixel_color(seeds, m2, x, y));
        }
    }
}

/// Assign every pixel the color of its nearest seed under the selected
/// metric, seeds of lower index winning ties. With no seeds at all the
/// buffer is left untouched.
#[verifier::loop_isolation(false)]
pub fn determine_pixel_allegiance(
    points: &Vec<Point>,
    buffer: &mut Vec<u32>,
    width: usize,
    height: usize,
    distance_type: &DistanceFn,
)
    requires
        old(buffer)@.len() == width * height,
        width <= MAX_DIM,
        height <= MAX_DIM,
        forall|i: int|
            0 <= i < points@.len() ==> (#[trigger] points@[i]).x < width && points@[i].y < height,
    ensures
        final(buffer)@.len() == old(buffer)@.len(),
        points@.len() == 0 ==> final(buffer)@ == old(buffer)@,
        points@.len() >= 1 ==> partitioned(
            final(buffer)@,
            points@,
            *distance_type,
            width as int,
            height as int,
        ),
{
    if points.len() == 0 {
        return ;
    }
    let mut x: usize = 0;
    while x < width
        invariant
            x <= width,
            buffer@.len() == width * height,
            forall|a: int, b: int|
                0 <= a < x && 0 <= b < height ==> buffer@[#[trigger] pix(width as int, a, b)]
                    == pixel_color(points@, *distance_type, a, b),
        decreases width - x,
    {
        let mut y: usize = 0;
        while y < height
            invariant
                y <= height,
                buffer@.len() == width * height,
                forall|a: int, b: int|
                    0 <= a < x && 0 <= b < height ==> buffer@[#[trigger] pix(width as int, a, b)]
                        == pixel_color(points@, *distance_type, a, b),
                forall|b: int|
                    0 <= b < y ==> buffer@[#[trigger] pix(width as int, x as int, b)]
                        == pixel_color(points@, *distance_type, x as int, b),
            decreases height - y,
        {
            let mut closest_point_index: usize = 0;
            let mut closest_point_diff: isize = isize::MAX;
            let mut index: usize = 0;
            while index < points.len()
                invariant
                    index <= points@.len(),
                    index == 0 ==> closest_point_index == 0 && closest_point_diff == isize::MAX,
                    index >= 1 ==> {
                        &&& closest_point_index < index
                        &&& closest_point_index == winner_upto(
                            points@,
                            *distance_type,
                            x as int,
                            y as int,
                            index as int,
                        )
                        &&& closest_point_diff == dist_to(
                            points@,
                            *distance_type,
                            closest_point_index as int,
                            x as int,
                            y as int,
                        )
                    },
                decreases points@.len() - index,
            {
                let x1 = points[index].x as isize;
                let y1 = points[index].y as isize;
                let x2 = x as isize;
                let y2 = y as isize;
                let d = distance(distance_type, x1, y1, x2, y2);
                proof {
                    lemma_distance_range(
                        *distance_type,
                        x1 as int,
                        y1 as int,
                        x2 as int,
                        y2 as int,
                    );
                }
                if d < closest_point_diff {
                    closest_point_index = index;
                    closest_point_diff = d;
                }
                index = index + 1;
            }
            proof {
                assert((y as int) * (width as int) + (x as int) < 0x4000_0000) by (nonlinear_arith)
                    requires
                        x < width,
                        y < height,
                        width <= 32768,
                        height <= 32768,
                ;
                lemma_pix_bounds(width as int, height as int, x as int, y as int);
            }
            let idx = y * width + x;
            let color = points[closest_point_index].color;
            buffer.set(idx, color);
            proof {
                assert(idx == pix(width as int, x as int, y as int));
                assert(buffer@[pix(width as int, x as int, y as int)] == pixel_color(
                    points@,
                    *distance_type,
                    x as int,
                    y as int,
                ));
                assert forall|a: int, b: int|
                    0 <= a < x && 0 <= b < height implies buffer@[#[trigger] pix(
                    width as int,
                    a,
                    b,
                )] == pixel_color(points@, *distance_type, a, b) by {
                    lemma_pix_injective(width as int, a, b, x as int, y as int);
                    lemma_pix_bounds(width as int, height as int, a, b);
                }
                assert forall|b: int|
                    0 <= b < y implies buffer@[#[trigger] pix(width as int, x as int, b)]
                    == pixel_color(points@, *distance_type, x as int, b) by {
                    lemma_pix_injective(width as int, x as int, b, x as int, y as int);
                    lemma_pix_bounds(width as int, height as int, x as int, b);
                }
            }
            y = y + 1;
        }
        x = x + 1;
    }
}

proof fn lemma_marker_index(width: int, len: int, px: int, py: int, k: int, j: int, radius: int)
    requires
        0 <= j < radius,
        0 <= k < radius,
        0 <= px,
        px + radius <= width,
        0 <= py,
        (py + radius) * width <= len,
    ensures
        py * width + px + width * k + j == pix(width, px + j, py + k),
        0 <= py * width,
        0 <= width * k,
        py * width + px + width * k + j < len,
{
    assert(py * width + px + width * k + j == (py + k) * width + (px + j) && 0 <= py * width && 0
        <= width * k && py * width + px + width * k + j < len) by (nonlinear_arith)
        requires
            0 <= j < radius,
            0 <= k < radius,
            0 <= px,
            px + radius <= width,
            0 <= py,
            (py + radius) * width <= len,
    ;
}

/// Overlay a `radius x radius` marker block of the marker color at each
/// seed, extending in the positive x and y directions; pixels outside
/// every block are left untouched.
#[verifier::loop_isolation(false)]
pub fn draw_points(points: &Vec<Point>, buffer: &mut Vec<u32>, radius: usize, width: usize)
    requires
        width <= MAX_DIM,
        old(buffer)@.len() <= MAX_DIM * MAX_DIM,
        forall|i: int|
            0 <= i < points@.len() ==> {
                let p = #[trigger] points@[i];
                &&& p.x + radius <= width
                &&& p.y + radius <= MAX_DIM
                &&& (p.y + radius) * width <= old(buffer)@.len()
            },
    ensures
        final(buffer)@.len() == old(buffer)@.len(),
        forall|a: int, b: int|
            0 <= pix(width as int, a, b) < old(buffer)@.len() && covered_by_marker(
                points@,
                radius as int,
                a,
                b,
            ) ==> final(buffer)@[#[trigger] pix(width as int, a, b)] == MARKER_COLOR,
        forall|a: int, b: int|
            0 <= a < width && 0 <= b && 0 <= pix(width as int, a, b) < old(buffer)@.len()
                && !covered_by_marker(points@, radius as int, a, b) ==> final(buffer)@[
                #[trigger] pix(width as int, a, b)
            ] == old(buffer)@[pix(width as int, a, b)],
{
    let ghost r = radius as int;
    let ghost w = width as int;
    let mut i: usize = 0;
    while i < points.len()
        invariant
            i <= points@.len(),
            buffer@.len() == old(buffer)@.len(),
            forall|a: int, b: int|
                0 <= pix(w, a, b) < old(buffer)@.len() && covered_by_marker(
                    points@.take(i as int),
                    r,
                    a,
                    b,
                ) ==> buffer@[#[trigger] pix(w, a, b)] == MARKER_COLOR,
            forall|a: int, b: int|
                0 <= a < width && 0 <= b && 0 <= pix(w, a, b) < old(buffer)@.len()
                    && !covered_by_marker(points@, r, a, b) ==> buffer@[#[trigger] pix(w, a, b)]
                    == old(buffer)@[pix(w, a, b)],
        decreases points@.len() - i,
    {
        let px = points[i].x;
        let py = points[i].y;
        let ghost pxi = px as int;
        let ghost pyi = py as int;
        proof {
            assert(0 <= pyi * w && pyi * w <= (pyi + r) * w) by (nonlinear_arith)
                requires
                    0 <= pyi,
                    0 <= r,
                    0 <= w,
            ;
        }
        let base_index = py * width + px;
        let mut k: usize = 0;
        while k < radius
            invariant
                k <= radius,
                buffer@.len() == old(buffer)@.len(),
                forall|a: int, b: int|
                    0 <= pix(w, a, b) < old(buffer)@.len() && covered_by_marker(
                        points@.take(i as int),
                        r,
                        a,
                        b,
                    ) ==> buffer@[#[trigger] pix(w, a, b)] == MARKER_COLOR,
                forall|a: int, b: int|
                    0 <= a < width && 0 <= b && 0 <= pix(w, a, b) < old(buffer)@.len()
                        && !covered_by_marker(points@, r, a, b) ==> buffer@[#[trigger] pix(
                        w,
                        a,
                        b,
                    )] == old(buffer)@[pix(w, a, b)],
                forall|a: int, b: int|
                    pxi <= a < pxi + r && pyi <= b < pyi + k ==> buffer@[#[trigger] pix(w, a, b)]
                        == MARKER_COLOR,
            decreases radius - k,
        {
            proof {
                assert(0 <= w * k && pyi * w + pxi + w * k <= (pyi + r) * w) by (nonlinear_arith)
                    requires
                        0 <= k < r,
                        0 <= pxi,
                        pxi + r <= w,
                        0 <= pyi,
                ;
            }
            let row_start = base_index + width * k;
            let mut j: usize = 0;
            while j < radius
                invariant
                    j <= radius,
                    buffer@.len() == old(buffer)@.len(),
                    forall|a: int, b: int|
                        0 <= pix(w, a, b) < old(buffer)@.len() && covered_by_marker(
                            points@.take(i as int),
                            r,
                            a,
                            b,
                        ) ==> buffer@[#[trigger] pix(w, a, b)] == MARKER_COLOR,
                    forall|a: int, b: int|
                        0 <= a < width && 0 <= b && 0 <= pix(w, a, b) < old(buffer)@.len()
                            && !covered_by_marker(points@, r, a, b) ==> buffer@[#[trigger] pix(
                            w,
                            a,
                            b,
                        )] == old(buffer)@[pix(w, a, b)],
                    forall|a: int, b: int|
                        pxi <= a < pxi + r && pyi <= b < pyi + k ==> buffer@[#[trigger] pix(
                            w,
                            a,
                            b,
                        )] == MARKER_COLOR,
                    forall|a: int|
                        pxi <= a < pxi + j ==> buffer@[#[trigger] pix(w, a, pyi + k)]
                            == MARKER_COLOR,
                decreases radius - j,
            {
                proof {
                    lemma_marker_index(w, old(buffer)@.len() as int, pxi, pyi, k as int, j as int, r);
                }
                buffer.set(row_start + j, MARKER_COLOR);
                proof {
                    let tx = pxi + j;
                    let ty = pyi + k;
                    assert(row_start + j == pix(w, tx, ty));
                    assert(in_marker_of(points@[i as int], r, tx, ty));
                    assert(covered_by_marker(points@, r, tx, ty));
                    assert forall|a: int, b: int|
                        0 <= a < width && 0 <= b && 0 <= pix(w, a, b) < old(buffer)@.len()
                            && !covered_by_marker(points@, r, a, b) implies buffer@[#[trigger] pix(
                        w,
                        a,
                        b,
                    )] == old(buffer)@[pix(w, a, b)] by {
                        lemma_pix_injective(w, a, b, tx, ty);
                    }
                    assert forall|a: int, b: int|
                        pxi <= a < pxi + r && pyi <= b < pyi + k implies buffer@[#[trigger] pix(
                        w,
                        a,
                        b,
                    )] == MARKER_COLOR by {
                        lemma_marker_index(
                            w,
                            old(buffer)@.len() as int,
                            pxi,
                            pyi,
                            b - pyi,
                            a - pxi,
                            r,
                        );
                    }
                    assert forall|a: int|
                        pxi <= a < pxi + j + 1 implies buffer@[#[trigger] pix(w, a, pyi + k)]
                        == MARKER_COLOR by {
                        lemma_marker_index(
                            w,
                            old(buffer)@.len() as int,
                            pxi,
                            pyi,
                            k as int,
                            a - pxi,
                            r,
                        );
                    }
                }
                j = j + 1;
            }
            k = k + 1;
        }
        proof {
            assert forall|a: int, b: int|
                0 <= pix(w, a, b) < old(buffer)@.len() && covered_by_marker(
                    points@.take(i + 1),
                    r,
                    a,
                    b,
                ) implies buffer@[#[trigger] pix(w, a, b)] == MARKER_COLOR by {
                let t = choose|t: int|
                    0 <= t < points@.take(i + 1).len() && in_marker_of(
                        #[trigger] points@.take(i + 1)[t],
                        r,
                        a,
                        b,
                    );
                assert(points@.take(i + 1)[t] == points@[t]);
                if t < i {
                    assert(points@.take(i as int)[t] == points@[t]);
                    assert(covered_by_marker(points@.take(i as int), r, a, b));
                }
            }
        }
        i = i + 1;
    }
    proof {
        assert(points@.take(points@.len() as int) =~= points@);
    }
}

/// Partition every pixel of the grid, then overlay the seed markers: the
/// shared tail of a full recompute and of a metric switch.
pub fn render_frame(
    points: &Vec<Point>,
    buffer: &mut Vec<u32>,
    width: usize,
    height: usize,
    radius: usize,
    distance: &DistanceFn,
)
    requires
        old(buffer)@.len() == width * height,
        width <= MAX_DIM,
        height <= MAX_DIM,
        points@.len() >= 1,
        forall|i: int|
            0 <= i < points@.len() ==> seed_in_bounds(
                #[trigger] points@[i],
                width as int,
                height as int,
                radius as int,
            ),
    ensures
        final(buffer)@.len() == old(buffer)@.len(),
        rendered(
            final(buffer)@,
            points@,
            *distance,
            width as int,
            height as int,
            radius as int,
        ),
{
    let ghost w = width as int;
    let ghost h = height as int;
    let ghost r = radius as int;
    determine_pixel_allegiance(points, buffer, width, height, distance);
    let ghost mid = buffer@;
    proof {
        assert(width * height <= MAX_DIM * MAX_DIM) by (nonlinear_arith)
            requires
                width <= MAX_DIM,
                height <= MAX_DIM,
        ;
        assert forall|i: int| 0 <= i < points@.len() implies {
            let p = #[trigger] points@[i];
            &&& p.x + radius <= width
            &&& p.y + radius <= MAX_DIM
            &&& (p.y + radius) * width <= buffer@.len()
        } by {
            let p = points@[i];
            assert((p.y + radius) * w <= h * w && h * w == w * h) by (nonlinear_arith)
                requires
                    p.y + radius <= h,
                    0 <= w,
            ;
        }
    }
    draw_points(points, buffer, radius, width);
    proof {
        assert forall|x: int, y: int|
            0 <= x < w && 0 <= y < h && covered_by_marker(points@, r, x, y) implies buffer@[
            #[trigger] pix(w, x, y)
        ] == MARKER_COLOR by {
            lemma_pix_bounds(w, h, x, y);
        }
        assert forall|x: int, y: int|
            0 <= x < w && 0 <= y < h && !covered_by_marker(points@, r, x, y) implies buffer@[
            #[trigger] pix(w, x, y)
        ] == pixel_color(points@, *distance, x, y) by {
            lemma_pix_bounds(w, h, x, y);
            assert(buffer@[pix(w, x, y)] == mid[pix(w, x, y)]);
        }
    }
}

/// One full recompute: draw a fresh random seed set for the current
/// parameters, partition every pixel under the selected metric, then
/// overlay the seed markers.
pub fn recompute(
    params: &Params,
    buffer: &mut Vec<u32>,
    colors: &Vec<u32>,
    radius: usize,
    distance: &DistanceFn,
    rng: &mut rand::rngs::ThreadRng,
) -> (points: Vec<Point>)
    requires
        old(buffer)@.len() == params.width * params.height,
        params.width <= MAX_DIM,
        params.height <= MAX_DIM,
        2 * radius < params.width,
        2 * radius < params.height,
        colors@.len() >= 1,
        params.n >= 1,
    ensures
        points@.len() == params.n,
        forall|i: int|
            0 <= i < points@.len() ==> seed_in_bounds(
                #[trigger] points@[i],
                params.width as int,
                params.height as int,
                radius as int,
            ),
        forall|i: int|
            0 <= i < points@.len() ==> (#[trigger] points@[i]).color == colors@[i % colors@.len() as int],
        final(buffer)@.len() == old(buffer)@.len(),
        rendered(
            final(buffer)@,
            points@,
            *distance,
            params.width as int,
            params.height as int,
            radius as int,
        ),
{
    let points = pick_random_points(params.n, params.width, params.height, colors, radius, rng);
    render_frame(&points, buffer, params.width, params.height, radius, distance);
    points
}

} // verus!
