//! The snapshot worker: what is due when a milestone becomes solid.

use vstd::prelude::*;
use crate::snapshot::constants::{
    ADDITIONAL_PRUNING_THRESHOLD, SOLID_ENTRY_POINT_CHECK_THRESHOLD_PAST,
};
use crate::tangle::graph::Tangle;

verus! {

/// How local snapshots are taken.
#[derive(Clone, Copy, Debug, PartialEq, Eq, Structural)]
pub struct LocalSnapshotConfig {
    /// How many milestones a snapshot stays behind the solid milestone.
    pub depth: u32,
    /// How many milestones lie between two snapshots of a synced node.
    pub interval_synced: u32,
    /// How many milestones lie between two snapshots of a node that is not synced.
    pub interval_unsynced: u32,
}

/// How the database is pruned.
#[derive(Clone, Copy, Debug, PartialEq, Eq, Structural)]
pub struct PruningConfig {
    pub enabled: bool,
    /// How many milestones pruning stays behind the solid milestone.
    pub delay: u32,
}

/// The configuration of snapshots and pruning.
#[derive(Clone, Copy, Debug, PartialEq, Eq, Structural)]
pub struct SnapshotConfig {
    pub local: LocalSnapshotConfig,
    pub pruning: PruningConfig,
}

/// A milestone has become solid.
#[derive(Clone, Copy, Debug, PartialEq, Eq, Structural)]
pub struct SnapshotWorkerEvent(pub u32);

/// What is due after a milestone has become solid.
#[derive(Clone, Copy, Debug, PartialEq, Eq, Structural)]
pub struct SnapshotActions {
    /// A snapshot is to be taken at this index.
    pub snapshot_at: Option<u32>,
    /// The database is to be pruned up to this index.
    pub prune_to: Option<u32>,
}

/// The snapshot worker.
#[derive(Clone, Copy, Debug, PartialEq, Eq, Structural)]
pub struct SnapshotWorker {
    pub config: SnapshotConfig,
    /// How many milestones pruning stays behind.
    pub delay: u32,
}

/// The delay of pruning: what is configured, but at least what a snapshot
/// and its solid entry points need of history, and a margin; held to 32 bits.
pub open spec fn pruning_delay(config: SnapshotConfig) -> u32 {
    let least = config.local.depth + SOLID_ENTRY_POINT_CHECK_THRESHOLD_PAST
        + ADDITIONAL_PRUNING_THRESHOLD + 1;
    let delay = if config.pruning.delay > least {
        config.pruning.delay as int
    } else {
        least
    };
    if delay > u32::MAX {
        u32::MAX
    } else {
        delay as u32
    }
}

/// Whether a snapshot is due when the milestone `index` has become
/// solid: there is history enough behind the snapshot's depth to find
/// solid entry points, and an interval has passed since the last snapshot.
pub open spec fn snapshot_due(
    config: SnapshotConfig,
    index: u32,
    snapshot_index: u32,
    pruning_index: u32,
    synced: bool,
) -> bool {
    let interval = if synced {
        config.local.interval_synced
    } else {
        config.local.interval_unsynced
    };
    &&& index >= config.local.depth + interval
    &&& index - config.local.depth >= pruning_index + 1 + SOLID_ENTRY_POINT_CHECK_THRESHOLD_PAST
    &&& index - (config.local.depth + interval) >= snapshot_index
}

impl SnapshotWorker {
    pub fn new(config: SnapshotConfig) -> (worker: Self)
        ensures
            worker.config == config,
            worker.delay == pruning_delay(config),
    {
        let least: u64 = config.local.depth as u64 + SOLID_ENTRY_POINT_CHECK_THRESHOLD_PAST as u64
            + ADDITIONAL_PRUNING_THRESHOLD as u64 + 1;
        let delay: u64 = if config.pruning.delay as u64 > least {
            config.pruning.delay as u64
        } else {
            least
        };
        let delay: u32 = if delay > 0xffff_ffff {
            0xffff_ffff
        } else {
            delay as u32
        };
        Self { config, delay }
    }

    /// Whether a snapshot is due now that the milestone `index` is solid.
    pub fn should_snapshot(&self, tangle: &Tangle, index: u32) -> (due: bool)
        ensures
            due == snapshot_due(
                self.config,
                index,
                tangle.snapshot(),
                tangle.pruning(),
                tangle.latest_solid() == tangle.latest(),
            ),
    {
        let solid_index: u64 = index as u64;
        let snapshot_index: u64 = tangle.get_snapshot_index() as u64;
        let pruning_index: u64 = tangle.get_pruning_index() as u64;
        let snapshot_depth: u64 = self.config.local.depth as u64;
        let snapshot_interval: u64 = if tangle.is_synced() {
            self.config.local.interval_synced as u64
        } else {
            self.config.local.interval_unsynced as u64
        };
        if solid_index < snapshot_depth + snapshot_interval || solid_index - snapshot_depth
            < pruning_index + 1 + SOLID_ENTRY_POINT_CHECK_THRESHOLD_PAST as u64 {
            // Not enough history to calculate solid entry points.
            return false;
        }
        solid_index - (snapshot_depth + snapshot_interval) >= snapshot_index
    }

    /// What is due now that the milestone `index` is solid: a snapshot at
    /// the snapshot's depth behind it, if one is due; and pruning up to
    /// the delay behind it, if pruning is enabled and the index is beyond
    /// the delay.
    pub fn process(&self, tangle: &Tangle, event: SnapshotWorkerEvent) -> (actions: SnapshotActions)
        ensures
            actions.snapshot_at == (if snapshot_due(
                self.config,
                event.0,
                tangle.snapshot(),
                tangle.pruning(),
                tangle.latest_solid() == tangle.latest(),
            ) {
                Some((event.0 - self.config.local.depth) as u32)
            } else {
                None
            }),
            actions.prune_to == (if self.config.pruning.enabled && event.0 > self.delay {
                Some((event.0 - self.delay) as u32)
            } else {
                None
            }),
    {
        let index: u32 = event.0;
        let snapshot_at: Option<u32> = if self.should_snapshot(tangle, index) {
            Some(index - self.config.local.depth)
        } else {
            None
        };
        let prune_to: Option<u32> = if self.config.pruning.enabled && index > self.delay {
            Some(index - self.delay)
        } else {
            None
        };
        SnapshotActions { snapshot_at, prune_to }
    }
}

} // verus!
