//! The session controller: current parameters, palette, seed set and pixel
//! buffer, mutated only by its command handlers.
//!
//! Every command is a complete, synchronous state transition: parameters
//! and seeds are updated together with a full buffer refresh, so the buffer
//! is never observed in a state inconsistent with the parameters.

use vstd::prelude::*;

use crate::engine::{recompute, render_frame, rendered};
use crate::metric::DistanceFn;
use crate::seeds::{seed_in_bounds, Point};
use crate::{MAX_DIM, MAX_SEEDS, MIN_SEEDS};

verus! {

/// The startup and runtime parameters: grid dimensions fixed at startup,
/// seed count and metric mutable through the commands.
#[derive(Clone, Copy, Debug, PartialEq, Eq, Structural)]
pub struct Params {
    pub n: usize,
    pub width: usize,
    pub height: usize,
    pub distance: DistanceFn,
}

/// A fatal configuration error, reported before the event loop starts.
#[derive(Clone, Copy, Debug, PartialEq, Eq, Structural)]
pub enum ConfigError {
    /// A dimension is too small for the marker radius: the placement
    /// margin leaves no room for a seed.
    DimensionsTooSmall,
    /// The requested seed count lies outside `[MIN_SEEDS, MAX_SEEDS]`.
    SeedCountOutOfRange,
    /// The palette holds no colors.
    EmptyPalette,
}

/// The interactive session. The buffer always shows a full recompute of
/// the current seed set under the current metric.
pub struct Session {
    pub params: Params,
    pub radius: usize,
    pub colors: Vec<u32>,
    pub seeds: Vec<Point>,
    pub buffer: Vec<u32>,
}

impl Session {
    /// Well-formed parameters: a clamped seed count, dimensions that leave
    /// the placement margin nonempty, a nonempty palette, and a buffer of
    /// exactly `width * height` pixels.
    pub open spec fn params_wf(self) -> bool {
        &&& MIN_SEEDS <= self.params.n <= MAX_SEEDS
        &&& 2 * self.radius < self.params.width
        &&& 2 * self.radius < self.params.height
        &&& self.params.width <= MAX_DIM
        &&& self.params.height <= MAX_DIM
        &&& self.colors@.len() >= 1
        &&& self.buffer@.len() == self.params.width * self.params.height
    }

    /// Full well-formedness: the seed set matches the requested count and
    /// every seed keeps its marker block inside the grid.
    pub open spec fn wf(self) -> bool {
        &&& self.params_wf()
        &&& self.seeds@.len() == self.params.n
        &&& forall|i: int|
            0 <= i < self.seeds@.len() ==> seed_in_bounds(
                #[trigger] self.seeds@[i],
                self.params.width as int,
                self.params.height as int,
                self.radius as int,
            )
    }

    /// The buffer shows a full recompute of the current seed set under the
    /// current metric.
    pub open spec fn fresh(self) -> bool {
        rendered(
            self.buffer@,
            self.seeds@,
            self.params.distance,
            self.params.width as int,
            self.params.height as int,
            self.radius as int,
        )
    }

    /// Validate the startup configuration; on success build the session
    /// and run the first full recompute. Each rejected configuration is
    /// reported by the matching error, dimensions checked first, then the
    /// seed count, then the palette.
    pub fn new(
        n: usize,
        width: usize,
        height: usize,
        distance: DistanceFn,
        colors: Vec<u32>,
        radius: usize,
        rng: &mut rand::rngs::ThreadRng,
    ) -> (r: Result<Session, ConfigError>)
        requires
            width <= MAX_DIM,
            height <= MAX_DIM,
            radius <= MAX_DIM,
        ensures
            (r matches Err(e) && e == ConfigError::DimensionsTooSmall) <==> (width <= 2 * radius
                || height <= 2 * radius),
            (r matches Err(e) && e == ConfigError::SeedCountOutOfRange) <==> (2 * radius < width
                && 2 * radius < height && !(MIN_SEEDS <= n <= MAX_SEEDS)),
            (r matches Err(e) && e == ConfigError::EmptyPalette) <==> (2 * radius < width && 2
                * radius < height && MIN_SEEDS <= n <= MAX_SEEDS && colors@.len() == 0),
            r matches Ok(s) ==> {
                &&& s.wf()
                &&& s.fresh()
                &&& s.params == (Params { n, width, height, distance })
                &&& s.radius == radius
                &&& s.colors@ == colors@
            },
            r is Ok <==> (2 * radius < width && 2 * radius < height && MIN_SEEDS <= n <= MAX_SEEDS
                && colors@.len() >= 1),
    {
        if width <= 2 * radius || height <= 2 * radius {
            return Err(ConfigError::DimensionsTooSmall);
        }
        if n < MIN_SEEDS || n > MAX_SEEDS {
            return Err(ConfigError::SeedCountOutOfRange);
        }
        if colors.len() == 0 {
            return Err(ConfigError::EmptyPalette);
        }
        proof {
            assert(width * height <= MAX_DIM * MAX_DIM) by (nonlinear_arith)
                requires
                    width <= MAX_DIM,
                    height <= MAX_DIM,
            ;
        }
        let size = width * height;
        let mut buffer: Vec<u32> = Vec::new();
        let mut i: usize = 0;
        while i < size
            invariant
                i <= size,
                buffer@.len() == i,
            decreases size - i,
        {
            buffer.push(u32::MAX);
            i = i + 1;
        }
        let params = Params { n, width, height, distance };
        let seeds = recompute(&params, &mut buffer, &colors, radius, &distance, rng);
        Ok(Session { params, radius, colors, seeds, buffer })
    }

    /// Draw a fresh seed set with the current count and fully recompute
    /// the buffer. Parameters and palette are left unchanged.
    pub fn regenerate(&mut self, rng: &mut rand::rngs::ThreadRng)
        requires
            old(self).params_wf(),
        ensures
            final(self).wf(),
            final(self).fresh(),
            final(self).params == old(self).params,
            final(self).radius == old(self).radius,
            final(self).colors@ == old(self).colors@,
    {
        let distance = self.params.distance;
        let seeds = recompute(
            &self.params,
            &mut self.buffer,
            &self.colors,
            self.radius,
            &distance,
            rng,
        );
        self.seeds = seeds;
    }

    /// Raise the seed count by one, clamped at `MAX_SEEDS`, then reseed
    /// and recompute. At the upper bound the count stays put; the frame is
    /// still recomputed with fresh seeds.
    pub fn increase_seeds(&mut self, rng: &mut rand::rngs::ThreadRng)
        requires
            old(self).wf(),
        ensures
            final(self).wf(),
            final(self).fresh(),
            final(self).params.n == if old(self).params.n < MAX_SEEDS {
                old(self).params.n + 1
            } else {
                old(self).params.n as int
            },
            final(self).params.width == old(self).params.width,
            final(self).params.height == old(self).params.height,
            final(self).params.distance == old(self).params.distance,
            final(self).radius == old(self).radius,
            final(self).colors@ == old(self).colors@,
    {
        if self.params.n < MAX_SEEDS {
            self.params.n = self.params.n + 1;
        }
        self.regenerate(rng);
    }

    /// Lower the seed count by one, clamped at `MIN_SEEDS`, then reseed
    /// and recompute. At the lower bound the count stays put; the frame is
    /// still recomputed with fresh seeds.
    pub fn decrease_seeds(&mut self, rng: &mut rand::rngs::ThreadRng)
        requires
            old(self).wf(),
        ensures
            final(self).wf(),
            final(self).fresh(),
            final(self).params.n == if old(self).params.n > MIN_SEEDS {
                old(self).params.n - 1
            } else {
                old(self).params.n as int
            },
            final(self).params.width == old(self).params.width,
            final(self).params.height == old(self).params.height,
            final(self).params.distance == old(self).params.distance,
            final(self).radius == old(self).radius,
            final(self).colors@ == old(self).colors@,
    {
        if self.params.n > MIN_SEEDS {
            self.params.n = self.params.n - 1;
        }
        self.regenerate(rng);
    }

    /// Switch the active metric and recompute the frame against the
    /// existing seed set: no reseed, the seeds are left unchanged.
    pub fn select_metric(&mut self, distance: DistanceFn)
        requires
            old(self).wf(),
        ensures
            final(self).wf(),
            final(self).fresh(),
            final(self).seeds@ == old(self).seeds@,
            final(self).params.n == old(self).params.n,
            final(self).params.width == old(self).params.width,
            final(self).params.height == old(self).params.height,
            final(self).params.distance == distance,
            final(self).radius == old(self).radius,
            final(self).colors@ == old(self).colors@,
    {
        self.params.distance = distance;
        let d = self.params.distance;
        render_frame(
            &self.seeds,
            &mut self.buffer,
            self.params.width,
            self.params.height,
            self.radius,
            &d,
        );
    }
}

} // verus!
