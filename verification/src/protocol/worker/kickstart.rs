//! The start of synchronisation.
//!
//! A node that starts behind waits until it has a peer and the latest
//! milestone is more than a batch ahead of its latest solid milestone.
//! Then it tells the solidifier where to go on and asks for the first
//! batch of milestones, once.

use vstd::prelude::*;

verus! {

/// The number of milestones that are asked for when synchronisation starts.
pub const MS_BATCH_SIZE: u32 = 5;

/// What starts synchronisation: the solidifier goes on at
/// `next_milestone`, and the milestones from `first_request` up to, not
/// including, `end_request` are asked for.
#[derive(Clone, Copy, Debug, PartialEq, Eq, Structural)]
pub struct KickstartPlan {
    pub next_milestone: u32,
    pub first_request: u32,
    pub end_request: u32,
}

/// The worker that starts synchronisation.
#[derive(Clone, Copy, Debug, PartialEq, Eq, Structural)]
pub struct KickstartWorker {
    /// Whether synchronisation was started: the worker has nothing left to do.
    pub done: bool,
}

/// Whether synchronisation can start: there is a handshaked peer, and the
/// latest milestone is more than a batch ahead of the latest solid one.
pub open spec fn can_kickstart(handshaked_peers: usize, latest_solid: u32, latest: u32) -> bool {
    handshaked_peers != 0 && latest - latest_solid > MS_BATCH_SIZE
}

impl KickstartWorker {
    pub fn new() -> (worker: Self)
        ensures
            !worker.done,
    {
        Self { done: false }
    }

    /// Looks at the state of the node, as is done once a second. Returns
    /// the plan when synchronisation can start, and then never again.
    pub fn run(&mut self, handshaked_peers: usize, latest_solid: u32, latest: u32) -> (plan: Option<
        KickstartPlan,
    >)
        ensures
            plan.is_some() == (!old(self).done && can_kickstart(
                handshaked_peers,
                latest_solid,
                latest,
            )),
            final(self).done == (old(self).done || plan.is_some()),
            plan matches Some(p) ==> p.next_milestone == latest_solid + 1 && p.first_request
                == latest_solid + 1 && p.end_request == latest_solid + 1 + MS_BATCH_SIZE,
    {
        if self.done {
            return None;
        }
        if handshaked_peers != 0 && latest > latest_solid && latest - latest_solid > MS_BATCH_SIZE {
            let next_ms: u32 = latest_solid + 1;
            self.done = true;
            Some(
                KickstartPlan {
                    next_milestone: next_ms,
                    first_request: next_ms,
                    end_request: next_ms + MS_BATCH_SIZE,
                },
            )
        } else {
            None
        }
    }
}

/// The indices that a plan asks for, in rising order.
pub fn planned_requests(plan: &KickstartPlan) -> (indices: Vec<u32>)
    requires
        plan.first_request <= plan.end_request,
    ensures
        indices@.len() == plan.end_request - plan.first_request,
        forall|i: int| 0 <= i < indices@.len() ==> indices@[i] == plan.first_request + i,
{
    let mut indices: Vec<u32> = Vec::new();
    let mut index: u32 = plan.first_request;
    while index < plan.end_request
        invariant
            plan.first_request <= index <= plan.end_request,
            indices@.len() == index - plan.first_request,
            forall|i: int| 0 <= i < indices@.len() ==> indices@[i] == plan.first_request + i,
        decreases plan.end_request - index,
    {
        indices.push(index);
        index = index + 1;
    }
    indices
}

} // verus!
