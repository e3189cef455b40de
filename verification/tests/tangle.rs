use bee::protocol::worker::milestone_validator::register_milestone;
use bee::protocol::worker::requester::{
    MilestoneRequestQueue, MilestoneRequesterWorkerEntry, RequestedMilestones, RequestedTransactions,
    TransactionRequesterWorkerEntry, WaitPriorityQueue,
};
use bee::protocol::worker::responder::{
    requested_milestone, respond_milestone, respond_transaction, Response,
};
use bee::protocol::peer::{EndpointId, Origin, Peer, PeerAddress, PeerManager};
use bee::protocol::worker::solid_propagator::{
    make_heartbeat, on_solidifiable, LatestSolidMilestoneChanged,
};
use bee::protocol::worker::solidifier::{
    save_index, trigger_solidification_unchecked, MilestoneSolidifierWorker,
    MilestoneSolidifierWorkerEvent, Solidification,
};
use bee::snapshot::pruning::{
    is_solid_entry_point, plan_pruning, prune_database, prune_milestone_transactions,
    referenced_transactions, replace_solid_entry_points, Error as PruningError, PruningPlan,
};
use bee::snapshot::worker::{
    LocalSnapshotConfig, PruningConfig, SnapshotActions, SnapshotConfig, SnapshotWorker,
    SnapshotWorkerEvent,
};
use bee::storage::access::OpError;
use bee::storage::persistable::Persistable;
use bee::tangle::graph::{Flags, SolidEntryPoint, Tangle, TransactionMetadata, Vertex};
use bee::tangle::traversal::missing_ancestors;
use bee::tangle::worker::{SnapshotMetadata, TangleWorker};

fn hash(n: i8) -> Vec<i8> {
    let mut trits = vec![0i8; 243];
    trits[0] = n % 3 - 1;
    trits[1] = (n / 3) % 3 - 1;
    trits[2] = (n / 9) % 3 - 1;
    trits[3] = 1;
    trits
}

fn vertex(own: i8, trunk: i8, branch: i8) -> Vertex {
    Vertex {
        hash: hash(own),
        trunk: hash(trunk),
        branch: hash(branch),
        metadata: TransactionMetadata {
            flags: Flags { solid: false, requested: false, confirmed: false },
            arrival_timestamp: 0,
            milestone_index: 0,
        },
    }
}

fn genesis_tangle() -> Tangle {
    TangleWorker::start(&SnapshotMetadata {
        index: 100,
        solid_entry_points: vec![SolidEntryPoint { hash: hash(0), index: 100 }],
    })
}

#[test]
fn tangle_starts_from_the_snapshot() {
    let tangle = genesis_tangle();
    assert_eq!(tangle.len(), 0);
    assert_eq!(tangle.get_latest_milestone_index(), 100);
    assert_eq!(tangle.get_latest_solid_milestone_index(), 100);
    assert_eq!(tangle.get_snapshot_index(), 100);
    assert_eq!(tangle.get_pruning_index(), 100);
    assert!(tangle.is_synced());
    assert!(tangle.is_solid_entry_point(&hash(0)));
    assert!(!tangle.is_solid_entry_point(&hash(1)));
    assert!(tangle.is_solid_transaction(&hash(0)));
    assert!(!tangle.is_solid_transaction(&hash(1)));
}

#[test]
fn insert_is_idempotent() {
    let mut tangle = genesis_tangle();
    assert!(tangle.insert(vertex(1, 0, 0)));
    assert!(!tangle.insert(vertex(1, 2, 2)));
    assert_eq!(tangle.len(), 1);
    assert!(tangle.contains(&hash(1)));
    assert_eq!(tangle.position(&hash(1)), Some(0));
    assert_eq!(tangle.position(&hash(2)), None);
    assert_eq!(tangle.get_metadata(&hash(1)).unwrap().milestone_index, 0);
    assert!(tangle.get_metadata(&hash(2)).is_none());
}

#[test]
fn chain_inserted_in_reverse_becomes_solid_at_once() {
    let mut tangle = genesis_tangle();
    // T0 <- T1 <- T2, with T0 on the solid entry point.
    assert!(tangle.insert(vertex(3, 2, 2)));
    assert!(tangle.propagate_solid(&hash(3)).is_empty());
    assert!(tangle.insert(vertex(2, 1, 1)));
    assert!(tangle.propagate_solid(&hash(2)).is_empty());
    assert!(!tangle.is_solid_transaction(&hash(2)));
    assert!(tangle.insert(vertex(1, 0, 0)));
    let newly = tangle.propagate_solid(&hash(1));
    assert_eq!(newly, vec![hash(1), hash(2), hash(3)]);
    assert!(tangle.is_solid_transaction(&hash(1)));
    assert!(tangle.is_solid_transaction(&hash(2)));
    assert!(tangle.is_solid_transaction(&hash(3)));
    // Solid stays solid, and nothing becomes solid twice.
    assert!(tangle.propagate_solid(&hash(1)).is_empty());
    assert!(tangle.propagate_solid(&hash(3)).is_empty());
    assert!(tangle.is_solid_transaction(&hash(3)));
}

#[test]
fn a_transaction_with_one_unsolid_parent_stays_unsolid() {
    let mut tangle = genesis_tangle();
    tangle.insert(vertex(1, 0, 5));
    assert!(tangle.propagate_solid(&hash(1)).is_empty());
    tangle.insert(vertex(5, 0, 0));
    assert_eq!(tangle.propagate_solid(&hash(5)), vec![hash(5), hash(1)]);
    assert!(tangle.propagate_solid(&hash(9)).is_empty());
}

#[test]
fn walk_finds_what_is_missing() {
    let mut tangle = genesis_tangle();
    let requested = RequestedTransactions::new();
    // 4 -> (3, 2); 3 -> (0, 7); 2 -> (8, 3); 7 and 8 are not there.
    tangle.insert(vertex(4, 3, 2));
    tangle.insert(vertex(3, 0, 7));
    tangle.insert(vertex(2, 8, 3));
    let missing = missing_ancestors(&tangle, &requested, &hash(4));
    assert_eq!(missing, vec![hash(7), hash(8)]);
    // A root that is not there is itself missing.
    assert_eq!(missing_ancestors(&tangle, &requested, &hash(9)), vec![hash(9)]);
    // A solid entry point is never missing.
    assert!(missing_ancestors(&tangle, &requested, &hash(0)).is_empty());
    // The walk does not go through what is asked for already.
    let mut requested = RequestedTransactions::new();
    requested.insert(hash(3), 5, 0);
    assert_eq!(missing_ancestors(&tangle, &requested, &hash(4)), vec![hash(8)]);
}

#[test]
fn walk_ends_on_a_cycle() {
    let mut tangle = genesis_tangle();
    let requested = RequestedTransactions::new();
    tangle.insert(vertex(1, 2, 2));
    tangle.insert(vertex(2, 1, 6));
    assert_eq!(missing_ancestors(&tangle, &requested, &hash(1)), vec![hash(6)]);
}

#[test]
fn latest_milestone_is_announced_only_when_it_rises() {
    let mut tangle = Tangle::new();
    let mut announced = Vec::new();
    for index in [3u32, 1, 3, 7, 5, 7, 8] {
        if let Some(event) = register_milestone(&mut tangle, &mut RequestedMilestones::new(), index, hash(index as i8)) {
            assert_eq!(event.hash, hash(index as i8));
            announced.push(event.index);
        }
    }
    assert_eq!(announced, vec![3, 7, 8]);
    assert_eq!(tangle.get_latest_milestone_index(), 8);
    assert_eq!(tangle.get_milestone_hash(5), Some(hash(5)));
    assert_eq!(tangle.get_milestone_hash(4), None);
}

#[test]
fn watermarks_never_fall() {
    let mut tangle = Tangle::new();
    tangle.update_latest_milestone_index(10);
    tangle.update_latest_milestone_index(4);
    assert_eq!(tangle.get_latest_milestone_index(), 10);
    tangle.update_latest_solid_milestone_index(6);
    tangle.update_latest_solid_milestone_index(2);
    assert_eq!(tangle.get_latest_solid_milestone_index(), 6);
    assert!(!tangle.is_synced());
    tangle.update_latest_solid_milestone_index(12);
    assert_eq!(tangle.get_latest_solid_milestone_index(), 12);
    assert_eq!(tangle.get_latest_milestone_index(), 12);
    tangle.update_snapshot_index(3);
    tangle.update_pruning_index(2);
    assert_eq!(tangle.get_snapshot_index(), 3);
    assert_eq!(tangle.get_pruning_index(), 2);
    tangle.add_solid_entry_point(hash(1), 1);
    assert!(tangle.is_solid_entry_point(&hash(1)));
    tangle.clear_solid_entry_points();
    assert!(!tangle.is_solid_entry_point(&hash(1)));
}

#[test]
fn save_index_keeps_a_falling_queue_without_repetition() {
    let mut queue = Vec::new();
    for index in [5u32, 9, 7, 5, 1, 9, 8] {
        save_index(index, &mut queue);
    }
    assert_eq!(queue, vec![9, 8, 7, 5, 1]);
}

#[test]
fn solidifier_advances_over_solid_milestones() {
    let mut tangle = genesis_tangle();
    let requested = RequestedTransactions::new();
    tangle.insert(vertex(1, 0, 0));
    tangle.propagate_solid(&hash(1));
    tangle.insert(vertex(2, 1, 9));
    register_milestone(&mut tangle, &mut RequestedMilestones::new(), 101, hash(1));
    register_milestone(&mut tangle, &mut RequestedMilestones::new(), 102, hash(2));

    assert!(matches!(
        trigger_solidification_unchecked(&tangle, &requested, 101),
        Solidification::Solid
    ));
    assert!(matches!(
        trigger_solidification_unchecked(&tangle, &requested, 103),
        Solidification::Unknown
    ));
    match trigger_solidification_unchecked(&tangle, &requested, 102) {
        Solidification::Missing(missing) => assert_eq!(missing, vec![hash(9)]),
        _ => panic!("the past of milestone 102 lacks a transaction"),
    }

    let mut worker = MilestoneSolidifierWorker::new(101);
    // 103 is not expected yet: it waits.
    let actions = worker.on_event(MilestoneSolidifierWorkerEvent(103), &tangle, &requested);
    assert!(actions.solidified.is_empty());
    assert!(actions.milestone_requests.is_empty());
    assert!(actions.transaction_requests.is_empty());
    assert_eq!(worker.next_ms_index(), 101);
    // 101 is solid, so 102 is expected; it is not there yet.
    let actions = worker.on_event(MilestoneSolidifierWorkerEvent(101), &tangle, &requested);
    assert_eq!(actions.solidified, vec![101]);
    assert_eq!(worker.next_ms_index(), 102);
    // 102 lacks hash 9: it is asked for, and 102 stays expected.
    let actions = worker.on_event(MilestoneSolidifierWorkerEvent(102), &tangle, &requested);
    assert!(actions.solidified.is_empty());
    assert_eq!(actions.transaction_requests.len(), 1);
    assert_eq!(actions.transaction_requests[0].0, hash(9));
    assert_eq!(actions.transaction_requests[0].1, 102);
    assert_eq!(worker.next_ms_index(), 102);
    // The transaction arrives; 102 is announced again and found solid; 103 is unknown.
    tangle.insert(vertex(9, 0, 0));
    tangle.propagate_solid(&hash(9));
    let actions = worker.on_event(MilestoneSolidifierWorkerEvent(102), &tangle, &requested);
    assert_eq!(actions.solidified, vec![102]);
    assert_eq!(actions.milestone_requests, vec![103]);
    assert_eq!(worker.next_ms_index(), 103);
    worker.set_next_milestone(200);
    assert_eq!(worker.next_ms_index(), 200);
}

#[test]
fn request_placed_twice_waits_once_under_its_first_priority() {
    let mut queue = WaitPriorityQueue::new();
    assert!(queue.is_empty());
    assert!(queue.insert(TransactionRequesterWorkerEntry(hash(1), 7)));
    assert!(!queue.insert(TransactionRequesterWorkerEntry(hash(1), 3)));
    assert_eq!(queue.len(), 1);
    assert!(queue.contains(&hash(1)));
    let entry = queue.pop().unwrap();
    assert_eq!(entry.0, hash(1));
    assert_eq!(entry.1, 7);
    assert!(queue.pop().is_none());
}

#[test]
fn requests_leave_by_priority_then_by_age() {
    let mut queue = WaitPriorityQueue::new();
    queue.insert(TransactionRequesterWorkerEntry(hash(1), 5));
    queue.insert(TransactionRequesterWorkerEntry(hash(2), 3));
    queue.insert(TransactionRequesterWorkerEntry(hash(3), 5));
    queue.insert(TransactionRequesterWorkerEntry(hash(4), 3));
    queue.insert(TransactionRequesterWorkerEntry(hash(5), 9));
    let mut order = Vec::new();
    while let Some(entry) = queue.pop() {
        order.push((entry.0, entry.1));
    }
    assert_eq!(
        order,
        vec![(hash(2), 3), (hash(4), 3), (hash(1), 5), (hash(3), 5), (hash(5), 9)]
    );
}

#[test]
fn milestone_requests_leave_lowest_first_and_once() {
    let mut queue = MilestoneRequestQueue::new();
    assert!(queue.is_empty());
    assert!(queue.insert(MilestoneRequesterWorkerEntry(7, None)));
    assert!(queue.insert(MilestoneRequesterWorkerEntry(3, Some(EndpointId(1)))));
    assert!(!queue.insert(MilestoneRequesterWorkerEntry(7, Some(EndpointId(2)))));
    assert!(queue.insert(MilestoneRequesterWorkerEntry(5, None)));
    assert_eq!(queue.len(), 3);
    assert_eq!(queue.pop(), Some(MilestoneRequesterWorkerEntry(3, Some(EndpointId(1)))));
    assert_eq!(queue.pop(), Some(MilestoneRequesterWorkerEntry(5, None)));
    assert_eq!(queue.pop(), Some(MilestoneRequesterWorkerEntry(7, None)));
    assert_eq!(queue.pop(), None);
}

#[test]
fn unanswered_request_is_due_again_after_the_interval() {
    let mut requested = RequestedTransactions::new();
    assert!(requested.insert(hash(1), 4, 1000));
    assert!(requested.insert(hash(2), 6, 1500));
    // Asking again does not reset the time of the first asking.
    assert!(!requested.insert(hash(1), 9, 1900));
    assert_eq!(requested.len(), 2);
    assert!(requested.due(1999, 1000).is_empty());
    let due = requested.due(2000, 1000);
    assert_eq!(due.len(), 1);
    assert_eq!(due[0].0, hash(1));
    assert_eq!(due[0].1, 4);
    // Both are due; the map hands them out in an order of its own.
    let mut due = requested.due(2500, 1000);
    due.sort_by_key(|entry| entry.1);
    assert_eq!(due.len(), 2);
    assert_eq!((&due[0].0, due[0].1), (&hash(1), 4));
    assert_eq!((&due[1].0, due[1].1), (&hash(2), 6));
    assert_eq!(requested.remove(&hash(1)), Some((4, 1000)));
    assert_eq!(requested.remove(&hash(1)), None);
    assert!(!requested.contains_key(&hash(1)));
    assert!(requested.contains_key(&hash(2)));
    assert_eq!(requested.due(u64::MAX, u64::MAX).len(), 0);
}

#[test]
fn responders_answer_or_miss() {
    let mut whole = vec![0u8; 1604];
    whole[3] = 9;
    match respond_transaction(EndpointId(4), Some(whole.clone())) {
        Response::Send(to, bytes) => {
            assert_eq!(to, EndpointId(4));
            assert_eq!(bytes.len(), 4 + 292);
            assert_eq!(bytes[3], 9);
        }
        Response::Miss => panic!("a stored transaction is sent"),
    }
    assert!(matches!(respond_transaction(EndpointId(4), None), Response::Miss));
    assert!(matches!(respond_transaction(EndpointId(4), Some(vec![0u8; 10])), Response::Miss));

    let mut tangle = Tangle::new();
    register_milestone(&mut tangle, &mut RequestedMilestones::new(), 4, hash(4));
    register_milestone(&mut tangle, &mut RequestedMilestones::new(), 6, hash(6));
    assert_eq!(requested_milestone(&tangle, 0), 6);
    assert_eq!(requested_milestone(&tangle, 4), 4);
    assert_eq!(respond_milestone(&tangle, 0), Some(hash(6)));
    assert_eq!(respond_milestone(&tangle, 4), Some(hash(4)));
    assert_eq!(respond_milestone(&tangle, 5), None);
}

fn snapshot_config() -> SnapshotConfig {
    SnapshotConfig {
        local: LocalSnapshotConfig { depth: 50, interval_synced: 50, interval_unsynced: 1000 },
        pruning: PruningConfig { enabled: true, delay: 60000 },
    }
}

#[test]
fn snapshot_is_due_with_enough_history() {
    let worker = SnapshotWorker::new(snapshot_config());
    assert_eq!(worker.delay, 60000);
    let mut tangle = Tangle::new();
    tangle.update_latest_solid_milestone_index(1000);
    tangle.update_snapshot_index(500);
    tangle.update_pruning_index(400);
    // Synced: interval 50. 600 - 100 >= 500, and 600 - 50 >= 400 + 1 + 50.
    assert!(worker.should_snapshot(&tangle, 600));
    assert!(!worker.should_snapshot(&tangle, 599));
    assert!(!worker.should_snapshot(&tangle, 99));
    tangle.update_pruning_index(500);
    // 600 - 50 = 550 < 500 + 1 + 50.
    assert!(!worker.should_snapshot(&tangle, 600));
    assert!(worker.should_snapshot(&tangle, 601));
    tangle.update_latest_milestone_index(2000);
    // Not synced: interval 1000.
    assert!(!worker.should_snapshot(&tangle, 1549));
    assert!(worker.should_snapshot(&tangle, 1550));

    assert_eq!(
        worker.process(&tangle, SnapshotWorkerEvent(1550)),
        SnapshotActions { snapshot_at: Some(1500), prune_to: None }
    );
    assert_eq!(
        worker.process(&tangle, SnapshotWorkerEvent(60001)),
        SnapshotActions { snapshot_at: Some(59951), prune_to: Some(1) }
    );
    let quiet = SnapshotWorker::new(SnapshotConfig {
        local: LocalSnapshotConfig { depth: 50, interval_synced: 50, interval_unsynced: 1000 },
        pruning: PruningConfig { enabled: false, delay: 0 },
    });
    assert_eq!(quiet.delay, 151);
    assert_eq!(quiet.process(&tangle, SnapshotWorkerEvent(60001)).prune_to, None);
}

#[test]
fn pruning_stays_behind_the_snapshot() {
    let mut tangle = Tangle::new();
    tangle.update_snapshot_index(100);
    assert_eq!(plan_pruning(&tangle, 5), None);
    tangle.update_snapshot_index(301);
    tangle.update_pruning_index(20);
    assert_eq!(plan_pruning(&tangle, 150), Some(PruningPlan { target: 150, first: 21 }));
    assert_eq!(plan_pruning(&tangle, 250), Some(PruningPlan { target: 200, first: 21 }));
}

#[test]
fn a_milestone_is_pruned_with_what_it_references() {
    let mut tangle = genesis_tangle();
    assert!(tangle.insert(vertex(1, 0, 0)));
    assert!(tangle.insert(vertex(2, 1, 0)));
    assert!(tangle.insert(vertex(3, 1, 2)));
    assert!(tangle.insert(vertex(4, 3, 9)));
    assert!(tangle.insert(vertex(5, 4, 4)));
    assert!(tangle.add_milestone(101, hash(4)));

    assert_eq!(referenced_transactions(&tangle, &hash(4)), vec![hash(4), hash(3), hash(2), hash(1)]);
    assert_eq!(referenced_transactions(&tangle, &hash(2)), vec![hash(2), hash(1)]);
    assert_eq!(referenced_transactions(&tangle, &hash(9)), Vec::<Vec<i8>>::new());

    assert_eq!(prune_milestone_transactions(&mut tangle, 102), None);
    assert_eq!(tangle.get_pruning_index(), 100);
    assert_eq!(
        prune_milestone_transactions(&mut tangle, 101),
        Some(vec![hash(4), hash(3), hash(2), hash(1)])
    );
    assert_eq!(tangle.get_pruning_index(), 101);
    assert_eq!(tangle.len(), 5);
}

#[test]
fn database_is_pruned_milestone_by_milestone() {
    let mut tangle = Tangle::new();
    assert!(tangle.insert(vertex(1, 0, 0)));
    assert!(tangle.insert(vertex(2, 1, 0)));
    assert!(tangle.insert(vertex(3, 2, 1)));
    assert!(tangle.add_milestone(1, hash(1)));
    assert!(tangle.add_milestone(3, hash(3)));
    assert!(tangle.add_milestone(250, hash(2)));

    // The snapshot leaves nothing to prune.
    tangle.update_snapshot_index(100);
    assert!(prune_database(&mut tangle, 3).is_empty());
    assert_eq!(tangle.get_pruning_index(), 0);

    // Milestone 2 is not known and is passed over.
    tangle.update_snapshot_index(301);
    let pruned = prune_database(&mut tangle, 4);
    assert_eq!(pruned.len(), 2);
    assert_eq!(pruned[0].index, 1);
    assert_eq!(pruned[0].transactions, vec![hash(1)]);
    assert_eq!(pruned[1].index, 3);
    assert_eq!(pruned[1].transactions, vec![hash(3), hash(1), hash(2)]);
    assert_eq!(tangle.get_pruning_index(), 3);
    assert_eq!(tangle.len(), 3);

    // What was pruned is not pruned again, and pruning stops where the snapshot says.
    assert!(prune_database(&mut tangle, 3).is_empty());
    assert!(prune_database(&mut tangle, 1000).is_empty());
    assert_eq!(tangle.get_pruning_index(), 3);
}

#[test]
fn the_walk_through_what_is_referenced_ends_on_a_cycle() {
    let mut tangle = genesis_tangle();
    assert!(tangle.insert(vertex(1, 2, 2)));
    assert!(tangle.insert(vertex(2, 1, 1)));
    assert_eq!(referenced_transactions(&tangle, &hash(1)), vec![hash(1), hash(2)]);
}

fn confirmed(own: i8, trunk: i8, branch: i8, milestone_index: u32) -> Vertex {
    let mut vertex = vertex(own, trunk, branch);
    vertex.metadata.flags.confirmed = true;
    vertex.metadata.milestone_index = milestone_index;
    vertex
}

#[test]
fn entry_point_is_asked_of_a_known_transaction_only() {
    let mut tangle = genesis_tangle();
    assert!(tangle.insert(confirmed(1, 0, 0, 5)));
    match is_solid_entry_point(&tangle, &hash(2)) {
        Err(PruningError::MetadataNotFound(missing)) => assert_eq!(missing, hash(2)),
        other => panic!("{:?}", other),
    }
    assert!(matches!(is_solid_entry_point(&tangle, &hash(1)), Ok(false)));
}

#[test]
fn entry_point_has_a_later_confirmed_approver_by_trunk() {
    let mut tangle = genesis_tangle();
    assert!(tangle.insert(confirmed(1, 0, 0, 5)));
    // Approves by its branch only: does not count.
    assert!(tangle.insert(confirmed(2, 0, 1, 6)));
    assert!(matches!(is_solid_entry_point(&tangle, &hash(1)), Ok(false)));
    // Approves by its trunk, confirmed by the same milestone: does not count.
    assert!(tangle.insert(confirmed(3, 1, 0, 5)));
    assert!(matches!(is_solid_entry_point(&tangle, &hash(1)), Ok(false)));
    // Approves by its trunk, not confirmed: does not count, but is walked through.
    assert!(tangle.insert(vertex(4, 3, 0)));
    assert!(matches!(is_solid_entry_point(&tangle, &hash(1)), Ok(false)));
    assert!(tangle.insert(confirmed(5, 4, 0, 6)));
    assert!(matches!(is_solid_entry_point(&tangle, &hash(1)), Ok(true)));
    assert!(matches!(is_solid_entry_point(&tangle, &hash(3)), Ok(true)));
    assert!(matches!(is_solid_entry_point(&tangle, &hash(5)), Ok(false)));
    assert!(matches!(is_solid_entry_point(&tangle, &hash(2)), Ok(false)));
}

#[test]
fn entry_point_walk_ends_on_a_cycle() {
    let mut tangle = genesis_tangle();
    assert!(tangle.insert(confirmed(1, 2, 0, 5)));
    assert!(tangle.insert(confirmed(2, 1, 0, 5)));
    assert!(matches!(is_solid_entry_point(&tangle, &hash(1)), Ok(false)));
}

#[test]
fn metadata_is_persisted_and_read_back() {
    let metadata = TransactionMetadata {
        flags: Flags { solid: true, requested: false, confirmed: true },
        arrival_timestamp: 0x0102_0304_0506_0708,
        milestone_index: 0x0a0b_0c0d,
    };
    let mut buffer = vec![0xeeu8];
    metadata.encode_persistable(&mut buffer);
    assert_eq!(
        buffer,
        vec![0xee, 1, 0, 1, 1, 2, 3, 4, 5, 6, 7, 8, 0x0a, 0x0b, 0x0c, 0x0d]
    );
    let read = TransactionMetadata::decode_persistable(&buffer[1..].to_vec());
    assert_eq!(read, metadata);
}

#[test]
fn backend_failure_can_not_be_retried() {
    let error = OpError::from_backend_message(String::from("disk full"));
    assert!(!error.is_retryable());
    assert!(!error.is_still_valid());
    assert_eq!(error.error_msg(), Some(String::from("disk full")));
    let error = OpError::new(true, true, None);
    assert!(error.is_retryable());
    assert!(error.is_still_valid());
    assert_eq!(error.error_msg(), None);
}

#[test]
fn validated_milestone_is_no_longer_requested() {
    let mut tangle = Tangle::new();
    let mut requested = RequestedMilestones::new();
    assert!(requested.insert(4, 10));
    assert!(!requested.insert(4, 20));
    assert!(requested.insert(5, 30));
    assert_eq!(requested.len(), 2);
    assert!(register_milestone(&mut tangle, &mut requested, 4, hash(4)).is_some());
    assert!(!requested.contains_key(4));
    assert!(requested.contains_key(5));
    assert_eq!(requested.remove(5), Some(30));
    assert_eq!(requested.remove(5), None);
}

#[test]
fn solid_milestone_is_announced_once() {
    let mut tangle = genesis_tangle();
    let mut requested = RequestedMilestones::new();
    // T0 <- T1 <- T2; T1 is the tail of milestone 101, T2 of milestone 102.
    tangle.insert(vertex(3, 2, 2));
    assert!(on_solidifiable(&mut tangle, &hash(3)).is_empty());
    tangle.insert(vertex(2, 1, 1));
    assert!(on_solidifiable(&mut tangle, &hash(2)).is_empty());
    register_milestone(&mut tangle, &mut requested, 102, hash(3));
    register_milestone(&mut tangle, &mut requested, 101, hash(2));
    assert_eq!(tangle.get_milestone_hash(102), Some(hash(3)));
    assert_eq!(tangle.get_milestone_hash(103), None);
    tangle.insert(vertex(1, 0, 0));
    assert_eq!(
        on_solidifiable(&mut tangle, &hash(1)),
        vec![LatestSolidMilestoneChanged(101), LatestSolidMilestoneChanged(102)]
    );
    assert_eq!(tangle.get_latest_solid_milestone_index(), 102);
    assert!(tangle.is_solid_transaction(&hash(3)));
    assert!(on_solidifiable(&mut tangle, &hash(1)).is_empty());
    assert!(on_solidifiable(&mut tangle, &hash(3)).is_empty());
    assert_eq!(tangle.get_latest_solid_milestone_index(), 102);
}

#[test]
fn heartbeat_tells_the_watermarks_and_the_peers() {
    let mut tangle = Tangle::new();
    tangle.update_latest_milestone_index(30);
    tangle.update_latest_solid_milestone_index(20);
    tangle.update_pruning_index(5);
    let mut manager = PeerManager::new();
    for i in 1..=3u64 {
        manager.handshake(
            Peer {
                epid: EndpointId(i),
                address: PeerAddress { ip: i as u128, port: 1 },
                origin: Origin::Inbound,
            },
            PeerAddress { ip: i as u128, port: 1 },
        );
    }
    manager.update_heartbeat(EndpointId(1), 9, 1, 9);
    manager.update_heartbeat(EndpointId(2), 8, 1, 9);
    let heartbeat = make_heartbeat(&tangle, &manager.list());
    assert_eq!(heartbeat.latest_solid_milestone_index, 20);
    assert_eq!(heartbeat.pruned_index, 5);
    assert_eq!(heartbeat.latest_milestone_index, 30);
    assert_eq!(heartbeat.connected_peers, 3);
    // The first peer, and the third, whose heartbeat is still empty.
    assert_eq!(heartbeat.synced_peers, 2);
}

#[test]
fn solid_entry_points_are_replaced_as_a_whole() {
    let mut tangle = genesis_tangle();
    assert!(tangle.is_solid_entry_point(&hash(0)));
    replace_solid_entry_points(
        &mut tangle,
        &vec![
            SolidEntryPoint { hash: hash(7), index: 140 },
            SolidEntryPoint { hash: hash(8), index: 141 },
        ],
    );
    assert!(!tangle.is_solid_entry_point(&hash(0)));
    assert!(tangle.is_solid_entry_point(&hash(7)));
    assert!(tangle.is_solid_entry_point(&hash(8)));
    assert_eq!(tangle.get_snapshot_index(), 100);
    replace_solid_entry_points(&mut tangle, &vec![]);
    assert!(!tangle.is_solid_entry_point(&hash(7)));
}
