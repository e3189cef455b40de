//! The tangle worker: the tangle that a node starts with.

use vstd::prelude::*;
use crate::bundle::transaction::copy_trits;
use crate::tangle::graph::{SolidEntryPoint, Tangle};
use crate::tangle::solidity::settled;

verus! {

/// What a snapshot says of the state to start from.
#[derive(Debug)]
pub struct SnapshotMetadata {
    /// Index of the milestone of the snapshot.
    pub index: u32,
    /// The solid entry points, each with the index of the milestone that confirmed it.
    pub solid_entry_points: Vec<SolidEntryPoint>,
}

/// The worker that owns the tangle.
pub struct TangleWorker;

/// The hashes of solid entry points.
pub open spec fn entry_hashes(points: Seq<SolidEntryPoint>) -> Seq<Seq<i8>> {
    Seq::new(points.len(), |i: int| points[i].hash@)
}

/// The indices of solid entry points.
pub open spec fn entry_indices(points: Seq<SolidEntryPoint>) -> Seq<u32> {
    Seq::new(points.len(), |i: int| points[i].index)
}

impl TangleWorker {
    /// The tangle that a node starts with after a snapshot: no
    /// transactions, every watermark at the index of the snapshot, and the
    /// solid entry points of the snapshot.
    pub fn start(config: &SnapshotMetadata) -> (tangle: Tangle)
        ensures
            tangle.wf(),
            tangle.vertices().len() == 0,
            tangle.milestone_indices().len() == 0,
            tangle.latest() == config.index,
            tangle.latest_solid() == config.index,
            tangle.snapshot() == config.index,
            tangle.pruning() == config.index,
            tangle.entry_points() == entry_hashes(config.solid_entry_points@),
            tangle.entry_point_indices() == entry_indices(config.solid_entry_points@),
            settled(tangle.vertices(), tangle.entry_points()),
    {
        let mut tangle = Tangle::new();
        tangle.update_latest_solid_milestone_index(config.index);
        tangle.update_latest_milestone_index(config.index);
        tangle.update_snapshot_index(config.index);
        tangle.update_pruning_index(config.index);
        let mut i: usize = 0;
        while i < config.solid_entry_points.len()
            invariant
                i <= config.solid_entry_points@.len(),
                tangle.wf(),
                tangle.vertices().len() == 0,
                tangle.milestone_indices().len() == 0,
                tangle.latest() == config.index,
                tangle.latest_solid() == config.index,
                tangle.snapshot() == config.index,
                tangle.pruning() == config.index,
                tangle.entry_points() == entry_hashes(config.solid_entry_points@).subrange(
                    0,
                    i as int,
                ),
                tangle.entry_point_indices() == entry_indices(config.solid_entry_points@).subrange(
                    0,
                    i as int,
                ),
            decreases config.solid_entry_points@.len() - i,
        {
            let hash = copy_trits(&config.solid_entry_points[i].hash);
            tangle.add_solid_entry_point(hash, config.solid_entry_points[i].index);
            i = i + 1;
            proof {
                assert(tangle.entry_points() =~= entry_hashes(config.solid_entry_points@).subrange(
                    0,
                    i as int,
                ));
                assert(tangle.entry_point_indices() =~= entry_indices(
                    config.solid_entry_points@,
                ).subrange(0, i as int));
            }
        }
        proof {
            let n = config.solid_entry_points@.len() as int;
            assert(entry_hashes(config.solid_entry_points@).subrange(0, n) =~= entry_hashes(
                config.solid_entry_points@,
            ));
            assert(entry_indices(config.solid_entry_points@).subrange(0, n) =~= entry_indices(
                config.solid_entry_points@,
            ));
        }
        tangle
    }
}

} // verus!
