//! How much history a snapshot and pruning leave.

use vstd::prelude::*;

verus! {

/// The number of milestones before a snapshot whose transactions are
/// looked at for solid entry points.
pub const SOLID_ENTRY_POINT_CHECK_THRESHOLD_PAST: u32 = 50;

/// The number of milestones that pruning stays behind what the solid
/// entry points of a snapshot need.
pub const ADDITIONAL_PRUNING_THRESHOLD: u32 = 50;

} // verus!
