//! The brush engines and their property records.

pub mod blotter;
pub mod blotter_props;
pub mod crystal;
pub mod crystal_props;
pub mod drip;
pub mod drip_props;

use vstd::prelude::*;

verus! {

/// The brush kinds on offer; exactly one is active at a time.
#[derive(Clone, Copy, Debug, PartialEq, Eq, Structural)]
pub enum BrushKind {
    Crystal,
    Drip,
    Blotter,
}

} // verus!
