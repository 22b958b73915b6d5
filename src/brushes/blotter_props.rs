//! User-adjustable parameters of the blotter brush.

use vstd::prelude::*;
use crate::geometry::{SCALE, COORD_LIMIT};

verus! {

/// Smallest spacing between deposits, in units (0.1 point): a lower
/// setting is raised to it.
pub const MIN_SPACING: i64 = 1_000;

/// Largest spacing setting that the brush accepts, in units.
pub const MAX_SPACING: i64 = 1_000_000_000;

/// The outline of a blot.
#[derive(Clone, Copy, Debug, PartialEq, Eq, Structural)]
pub enum BlotShape {
    Circle,
    Square,
}

/// Parameters of the blotter brush, in fixed-point units.
#[derive(Clone, Copy, Debug, PartialEq, Eq, Structural)]
pub struct BlotterProps {
    /// Radius of each blot.
    pub radius: i64,
    /// Softness: 0 is a hard edge, `SCALE` the softest halo.
    pub softness: i64,
    /// Opacity, from 0 to `SCALE`.
    pub opacity: i64,
    /// Travel distance between consecutive deposits.
    pub spacing: i64,
    pub shape: BlotShape,
}

impl BlotterProps {
    /// Radius positive and bounded, softness and opacity fractions, spacing bounded.
    pub open spec fn valid(self) -> bool {
        &&& 0 < self.radius <= COORD_LIMIT
        &&& 0 <= self.softness <= SCALE
        &&& 0 <= self.opacity <= SCALE
        &&& self.spacing <= MAX_SPACING
    }

    /// The spacing actually used: the setting, raised to `MIN_SPACING`.
    pub open spec fn effective_spacing(self) -> int {
        if self.spacing < MIN_SPACING {
            MIN_SPACING as int
        } else {
            self.spacing as int
        }
    }

    pub fn effective_spacing_exec(&self) -> (s: i64)
        ensures
            s == self.effective_spacing(),
    {
        if self.spacing < MIN_SPACING {
            MIN_SPACING
        } else {
            self.spacing
        }
    }
}

impl Default for BlotterProps {
    /// Radius 12, softness 0.15, opacity 0.9, spacing 4 (in points and
    /// fractions), round blots.
    fn default() -> (p: BlotterProps)
        ensures
            p == (BlotterProps {
            radius: 120_000,
            softness: 1_500,
            opacity: 9_000,
            spacing: 40_000,
            shape: BlotShape::Circle,
        }),
    {
        BlotterProps {
            radius: 120_000,
            softness: 1_500,
            opacity: 9_000,
            spacing: 40_000,
            shape: BlotShape::Circle,
        }
    }
}

} // verus!
