//! Parameters of the drip brush.

use vstd::prelude::*;
use crate::geometry::{COORD_LIMIT, SCALE};

verus! {

/// Parameters of the drip brush, in fixed-point units.
#[derive(Clone, Copy, Debug, PartialEq, Eq, Structural)]
pub struct DripProps {
    /// Downward pull per sample, before the 0.02 time step.
    pub gravity: i64,
    /// Damping factor, a fraction of `SCALE`: 1.0 keeps all velocity.
    pub viscosity: i64,
    pub thickness: i64,
}

impl DripProps {
    /// Gravity non-negative and bounded; viscosity a fraction no larger than 1,
    /// so that damping never amplifies.
    pub open spec fn valid(self) -> bool {
        &&& 0 <= self.gravity <= COORD_LIMIT
        &&& 0 <= self.viscosity <= SCALE
    }
}

impl Default for DripProps {
    /// Gravity 1.2, viscosity 0.9, thickness 2.
    fn default() -> (p: DripProps)
        ensures
            p == (DripProps { gravity: 12_000, viscosity: 9_000, thickness: 20_000 }),
    {
        DripProps { gravity: 12_000, viscosity: 9_000, thickness: 20_000 }
    }
}

} // verus!
