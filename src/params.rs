//! The parameter record handed to the field kernel.

use crate::viewport::MAX_ZOOM_DELTA;
use vstd::prelude::*;

verus! {

/// A range that the viewport may take: increasing, and at least
/// `MAX_ZOOM_DELTA` wide.
pub open spec fn valid_range(r: (i64, i64)) -> bool {
    r.0 < r.1 && r.1 - r.0 >= MAX_ZOOM_DELTA
}

/// Whether the viewport may take `r`.
pub fn is_valid_range(r: (i64, i64)) -> (b: bool)
    ensures
        b == valid_range(r),
{
    r.0 < r.1 && r.1 as i128 - r.0 as i128 >= MAX_ZOOM_DELTA as i128
}

/// Parameters of the field kernel: iteration limit, sample count, step
/// size, coupling constant (both fixed-point) and the visible ranges.
#[derive(Clone, Copy, Debug)]
pub struct ComputeData {
    pub max_iter: u32,
    pub num_particles: u32,
    pub dt: i64,
    pub mu: i64,
    pub x_range: (i64, i64),
    pub y_range: (i64, i64),
}

impl ComputeData {
    /// Both ranges are valid.
    pub open spec fn wf(&self) -> bool {
        valid_range(self.x_range) && valid_range(self.y_range)
    }

    /// The visible range in x.
    pub fn get_x_range(&self) -> (r: (i64, i64))
        ensures
            r == self.x_range,
    {
        self.x_range
    }

    /// The visible range in y.
    pub fn get_y_range(&self) -> (r: (i64, i64))
        ensures
            r == self.y_range,
    {
        self.y_range
    }

    /// Sets the range in x when it is valid; leaves everything as it was
    /// otherwise.
    pub fn update_x_range(&mut self, x_range: (i64, i64))
        ensures
            final(self).x_range == (if valid_range(x_range) {
                x_range
            } else {
                old(self).x_range
            }),
            final(self).y_range == old(self).y_range,
            final(self).max_iter == old(self).max_iter,
            final(self).num_particles == old(self).num_particles,
            final(self).dt == old(self).dt,
            final(self).mu == old(self).mu,
    {
        if is_valid_range(x_range) {
            self.x_range = x_range;
        }
    }

    /// Sets the range in y when it is valid; leaves everything as it was
    /// otherwise.
    pub fn update_y_range(&mut self, y_range: (i64, i64))
        ensures
            final(self).y_range == (if valid_range(y_range) {
                y_range
            } else {
                old(self).y_range
            }),
            final(self).x_range == old(self).x_range,
            final(self).max_iter == old(self).max_iter,
            final(self).num_particles == old(self).num_particles,
            final(self).dt == old(self).dt,
            final(self).mu == old(self).mu,
    {
        if is_valid_range(y_range) {
            self.y_range = y_range;
        }
    }
}

/// 100 iterations, 20000 samples, step 0.1, coupling 4.5, x in [-2, 0.5]
/// and y in [-1.25, 1.25], in units of `COORD_ONE`.
pub open spec fn default_compute_data() -> ComputeData {
    ComputeData {
        max_iter: 100,
        num_particles: 20000,
        dt: 429496730,
        mu: 19327352832,
        x_range: (-8589934592i64, 2147483648i64),
        y_range: (-5368709120i64, 5368709120i64),
    }
}

impl Default for ComputeData {
    fn default() -> (r: Self)
        ensures
            r == default_compute_data(),
            r.wf(),
    {
        ComputeData {
            max_iter: 100,
            num_particles: 20000,
            dt: 429496730,
            mu: 19327352832,
            x_range: (-8589934592, 2147483648),
            y_range: (-5368709120, 5368709120),
        }
    }
}

} // verus!
