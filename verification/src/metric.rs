//! The selectable distance metrics: squared Euclidean and Manhattan.
//!
//! Only the relative order of scores ever matters downstream, so the
//! Euclidean variant returns the squared distance and skips the root.

use vstd::prelude::*;

verus! {

/// Which distance function classifies pixels. A runtime-selectable field
/// of the session parameters, switchable independently of reseeding.
#[derive(Clone, Copy, Debug, PartialEq, Eq, Structural)]
pub enum DistanceFn {
    Euclidian,
    Manhattan,
}

/// Squared Euclidean distance between `(x1, y1)` and `(x2, y2)`.
pub open spec fn spec_euclidian(x1: int, y1: int, x2: int, y2: int) -> int {
    (x1 - x2) * (x1 - x2) + (y1 - y2) * (y1 - y2)
}

/// Absolute value over mathematical integers.
pub open spec fn spec_abs(v: int) -> int {
    if v < 0 {
        -v
    } else {
        v
    }
}

/// Manhattan distance between `(x1, y1)` and `(x2, y2)`.
pub open spec fn spec_manhattan(x1: int, y1: int, x2: int, y2: int) -> int {
    spec_abs(x1 - x2) + spec_abs(y1 - y2)
}

/// The score of the selected metric on a pair of coordinates.
pub open spec fn spec_distance(m: DistanceFn, x1: int, y1: int, x2: int, y2: int) -> int {
    match m {
        DistanceFn::Euclidian => spec_euclidian(x1, y1, x2, y2),
        DistanceFn::Manhattan => spec_manhattan(x1, y1, x2, y2),
    }
}

/// On coordinates below `MAX_DIM`, every metric score is nonnegative and
/// strictly below `isize::MAX`, so a running minimum seeded with
/// `isize::MAX` is always beaten by the first seed examined.
pub proof fn lemma_distance_range(m: DistanceFn, x1: int, y1: int, x2: int, y2: int)
    requires
        0 <= x1 < 32768,
        0 <= y1 < 32768,
        0 <= x2 < 32768,
        0 <= y2 < 32768,
    ensures
        0 <= spec_distance(m, x1, y1, x2, y2) < 0x7fff_ffff,
{
    let dx = x1 - x2;
    let dy = y1 - y2;
    assert(dx * dx + dy * dy < 0x7fff_ffff && 0 <= dx * dx + dy * dy) by (nonlinear_arith)
        requires
            -32768 < dx < 32768,
            -32768 < dy < 32768,
    ;
}

pub fn euclidian_distance(x1: isize, y1: isize, x2: isize, y2: isize) -> (r: isize)
    requires
        0 <= x1 < 32768,
        0 <= y1 < 32768,
        0 <= x2 < 32768,
        0 <= y2 < 32768,
    ensures
        r == spec_euclidian(x1 as int, y1 as int, x2 as int, y2 as int),
{
    let dx = x1 - x2;
    let dy = y1 - y2;
    proof {
        assert(dx * dx + dy * dy < 0x7fff_ffff && 0 <= dx * dx && 0 <= dy * dy)
            by (nonlinear_arith)
            requires
                -32768 < dx < 32768,
                -32768 < dy < 32768,
        ;
    }
    dx * dx + dy * dy
}

pub fn manhattan_distance(x1: isize, y1: isize, x2: isize, y2: isize) -> (r: isize)
    requires
        0 <= x1 < 32768,
        0 <= y1 < 32768,
        0 <= x2 < 32768,
        0 <= y2 < 32768,
    ensures
        r == spec_manhattan(x1 as int, y1 as int, x2 as int, y2 as int),
{
    let dx = x1 - x2;
    let dy = y1 - y2;
    let adx: isize = if dx < 0 {
        -dx
    } else {
        dx
    };
    let ady: isize = if dy < 0 {
        -dy
    } else {
        dy
    };
    adx + ady
}

/// Dispatch on the selected metric.
pub fn distance(m: &DistanceFn, x1: isize, y1: isize, x2: isize, y2: isize) -> (r: isize)
    requires
        0 <= x1 < 32768,
        0 <= y1 < 32768,
        0 <= x2 < 32768,
        0 <= y2 < 32768,
    ensures
        r == spec_distance(*m, x1 as int, y1 as int, x2 as int, y2 as int),
{
    match m {
        DistanceFn::Euclidian => euclidian_distance(x1, y1, x2, y2),
        DistanceFn::Manhattan => manhattan_distance(x1, y1, x2, y2),
    }
}

} // verus!
