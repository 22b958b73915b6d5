//! Parameters of the crystal brush.

use vstd::prelude::*;

verus! {

/// Parameters of the crystal brush, in fixed-point units. The branch settings
/// are carried for the host's controls; the growth model does not branch.
#[derive(Clone, Copy, Debug, PartialEq, Eq, Structural)]
pub struct CrystalProps {
    pub branch_angle: i64,
    pub branch_decay: i64,
    pub min_segment: i64,
    pub thickness: i64,
}

impl Default for CrystalProps {
    /// Branch angle 0.35, decay 0.7, minimum segment 6, thickness 2.
    fn default() -> (p: CrystalProps)
        ensures
            p == (CrystalProps { branch_angle: 3_500, branch_decay: 7_000, min_segment: 60_000, thickness: 20_000 }),
    {
        CrystalProps { branch_angle: 3_500, branch_decay: 7_000, min_segment: 60_000, thickness: 20_000 }
    }
}

} // verus!
