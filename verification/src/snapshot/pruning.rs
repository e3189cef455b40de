//! Pruning: how far the database is pruned, what leaves it with each
//! milestone, and which transactions stay needed at the boundary of the
//! pruned past.

use vstd::prelude::*;
use crate::snapshot::constants::{
    ADDITIONAL_PRUNING_THRESHOLD, SOLID_ENTRY_POINT_CHECK_THRESHOLD_PAST,
};
use crate::bundle::transaction::copy_trits;
use crate::tangle::graph::{distinct_hashes, present, SolidEntryPoint, Tangle, VertexView};
use crate::tangle::worker::{entry_hashes, entry_indices};
use crate::tangle::traversal::{hashes, no_duplicates};
use crate::ternary::trits::trits_eq;

verus! {

/// Why pruning failed.
#[derive(Debug)]
pub enum Error {
    /// The milestone with this index is not in the tangle.
    MilestoneNotFoundInTangle(u32),
    /// The transaction with this hash has no metadata.
    MetadataNotFound(Vec<i8>),
}

/// Whether `hash` is reached from `root` in `steps` steps, each from a
/// transaction to one that has it as its trunk.
pub open spec fn approves_in(
    vertices: Seq<VertexView>,
    root: Seq<i8>,
    hash: Seq<i8>,
    steps: nat,
) -> bool
    decreases steps,
{
    if steps == 0 {
        hash == root
    } else {
        exists|i: int|
            0 <= i < vertices.len() && (#[trigger] vertices[i]).hash == hash && approves_in(
                vertices,
                root,
                vertices[i].trunk,
                (steps - 1) as nat,
            )
    }
}

/// Whether `hash` is `root` or approves it through trunks alone.
pub open spec fn approves(vertices: Seq<VertexView>, root: Seq<i8>, hash: Seq<i8>) -> bool {
    exists|steps: nat| approves_in(vertices, root, hash, steps)
}

/// Whether the vertex at `i` is confirmed by a milestone above `index`.
pub open spec fn confirmed_above(vertices: Seq<VertexView>, i: int, index: u32) -> bool {
    vertices[i].metadata.flags.confirmed && vertices[i].metadata.milestone_index > index
}

/// Whether a transaction that approves `root` through trunks alone is
/// confirmed by a milestone above the one that confirms `root`.
pub open spec fn approved_later(vertices: Seq<VertexView>, root: Seq<i8>) -> bool {
    exists|r: int, i: int|
        0 <= r < vertices.len() && (#[trigger] vertices[r]).hash == root && 0 <= i < vertices.len()
            && approves(vertices, root, (#[trigger] vertices[i]).hash) && confirmed_above(
            vertices,
            i,
            vertices[r].metadata.milestone_index,
        )
}

/// The number of marks that are set among the first `n`.
spec fn marks(marked: Seq<bool>, n: int) -> int
    decreases n,
{
    if n <= 0 {
        0
    } else {
        marks(marked, n - 1) + if marked[n - 1] {
            1int
        } else {
            0int
        }
    }
}

proof fn lemma_marks_bound(marked: Seq<bool>, n: int)
    requires
        0 <= n <= marked.len(),
    ensures
        0 <= marks(marked, n) <= n,
    decreases n,
{
    if n > 0 {
        lemma_marks_bound(marked, n - 1);
    }
}

proof fn lemma_marks_grow(marked: Seq<bool>, at: int, n: int)
    requires
        0 <= at < marked.len(),
        0 <= n <= marked.len(),
        !marked[at],
    ensures
        marks(marked.update(at, true), n) == marks(marked, n) + if at < n {
            1int
        } else {
            0int
        },
    decreases n,
{
    if n > 0 {
        lemma_marks_grow(marked, at, n - 1);
    }
}

/// With the root marked and every approver by trunk of a marked vertex
/// marked, whatever approves the root through trunks is marked.
proof fn lemma_marked_all(
    vertices: Seq<VertexView>,
    root: Seq<i8>,
    marked: Seq<bool>,
    hash: Seq<i8>,
    steps: nat,
)
    requires
        distinct_hashes(vertices),
        marked.len() == vertices.len(),
        exists|r: int| 0 <= r < vertices.len() && (#[trigger] vertices[r]).hash == root && marked[r],
        forall|i: int, j: int|
            0 <= i < vertices.len() && 0 <= j < vertices.len() && marked[i] && (
            #[trigger] vertices[j]).trunk == (#[trigger] vertices[i]).hash ==> marked[j],
        approves_in(vertices, root, hash, steps),
    ensures
        exists|m: int| 0 <= m < vertices.len() && (#[trigger] vertices[m]).hash == hash && marked[m],
    decreases steps,
{
    if steps > 0 {
        let i = choose|i: int|
            0 <= i < vertices.len() && (#[trigger] vertices[i]).hash == hash && approves_in(
                vertices,
                root,
                vertices[i].trunk,
                (steps - 1) as nat,
            );
        lemma_marked_all(vertices, root, marked, vertices[i].trunk, (steps - 1) as nat);
        let m = choose|m: int|
            0 <= m < vertices.len() && (#[trigger] vertices[m]).hash == vertices[i].trunk
                && marked[m];
        assert(vertices[i].trunk == vertices[m].hash);
        assert(marked[i]);
    }
}

/// Whether a transaction that approves `hash` through trunks alone is
/// confirmed by a milestone above the one that confirms `hash`: then
/// `hash` stays needed at the boundary of the pruned past. A hash that is
/// not in the tangle has no metadata to go by.
pub fn is_solid_entry_point(tangle: &Tangle, hash: &Vec<i8>) -> (res: Result<bool, Error>)
    requires
        tangle.wf(),
    ensures
        res.is_err() == !present(tangle.vertices(), hash@),
        res matches Err(e) ==> (e matches Error::MetadataNotFound(h) && h@ == hash@),
        res matches Ok(found) ==> found == approved_later(tangle.vertices(), hash@),
{
    let ghost vs = tangle.vertices();
    let root: usize = match tangle.position(hash) {
        Some(p) => p,
        None => {
            return Err(Error::MetadataNotFound(copy_trits(hash)));
        },
    };
    assert(vs[root as int] == tangle.vertices@[root as int]@);
    let milestone_index: u32 = tangle.vertices[root].metadata.milestone_index;
    let n: usize = tangle.vertices.len();
    let mut marked: Vec<bool> = Vec::new();
    while marked.len() < n
        invariant
            marked@.len() <= n,
            forall|i: int| 0 <= i < marked@.len() ==> !marked@[i],
        decreases n - marked@.len(),
    {
        marked.push(false);
    }
    let mut stack: Vec<usize> = Vec::new();
    let ghost mut finished: Set<int> = Set::empty();
    proof {
        lemma_marks_grow(marked@, root as int, n as int);
        assert(approves_in(vs, hash@, hash@, 0));
    }
    marked.set(root, true);
    stack.push(root);
    assert(stack@[0] == root);
    proof {
        lemma_marks_bound(marked@, n as int);
    }
    while stack.len() > 0
        invariant
            tangle.wf(),
            vs == tangle.vertices(),
            n == vs.len(),
            n == tangle.vertices@.len(),
            marked@.len() == n,
            root < n,
            vs[root as int].hash == hash@,
            milestone_index == vs[root as int].metadata.milestone_index,
            marked@[root as int],
            forall|k: int| 0 <= k < stack@.len() ==> #[trigger] stack@[k] < n && marked@[stack@[k] as int],
            forall|i: int| 0 <= i < n && #[trigger] marked@[i] ==> approves(vs, hash@, vs[i].hash),
            forall|i: int|
                0 <= i < n && #[trigger] marked@[i] ==> finished.contains(i) || stack@.contains(
                    i as usize,
                ),
            forall|i: int|
                #![trigger finished.contains(i)]
                finished.contains(i) ==> 0 <= i < n && marked@[i] && !confirmed_above(
                    vs,
                    i,
                    milestone_index,
                ),
            forall|i: int, j: int|
                finished.contains(i) && 0 <= j < n && (#[trigger] vs[j]).trunk == (
                #[trigger] vs[i]).hash ==> marked@[j],
            0 <= marks(marked@, n as int) <= n,
        decreases n - marks(marked@, n as int) + stack@.len(),
    {
        let ghost held_stack = stack@;
        let current: usize = stack.pop().unwrap();
        proof {
            assert(current == held_stack[held_stack.len() - 1]);
            assert(stack@ =~= held_stack.drop_last());
            assert forall|u: usize| held_stack.contains(u) implies stack@.contains(u) || u
                == current by {
                let w = choose|w: int| 0 <= w < held_stack.len() && held_stack[w] == u;
                if w < held_stack.len() - 1 {
                    assert(stack@[w] == u);
                }
            }
            assert(vs[current as int] == tangle.vertices@[current as int]@);
        }
        let metadata = tangle.vertices[current].metadata;
        if metadata.flags.confirmed && metadata.milestone_index > milestone_index {
            proof {
                assert(marked@[current as int]);
                assert(approves(vs, hash@, vs[current as int].hash));
                assert(confirmed_above(vs, current as int, vs[root as int].metadata.milestone_index));
            }
            return Ok(true);
        }
        let ghost before = marks(marked@, n as int);
        let ghost popped = stack@;
        let mut j: usize = 0;
        while j < n
            invariant
                tangle.wf(),
                vs == tangle.vertices(),
                n == vs.len(),
                n == tangle.vertices@.len(),
                marked@.len() == n,
                j <= n,
                current < n,
                root < n,
                marked@[root as int],
                marked@[current as int],
                forall|k: int| 0 <= k < stack@.len() ==> #[trigger] stack@[k] < n && marked@[stack@[k] as int],
                forall|i: int|
                    0 <= i < n && #[trigger] marked@[i] ==> approves(vs, hash@, vs[i].hash),
                forall|i: int|
                    0 <= i < n && #[trigger] marked@[i] ==> finished.contains(i) || stack@.contains(
                        i as usize,
                    ) || i == current,
                forall|i: int|
                    #![trigger finished.contains(i)]
                    finished.contains(i) ==> 0 <= i < n && marked@[i] && !confirmed_above(
                        vs,
                        i,
                        milestone_index,
                    ),
                forall|i: int, j: int|
                    finished.contains(i) && 0 <= j < n && (#[trigger] vs[j]).trunk == (
                    #[trigger] vs[i]).hash ==> marked@[j],
                forall|k: int|
                    0 <= k < j && (#[trigger] vs[k]).trunk == vs[current as int].hash ==> marked@[k],
                0 <= marks(marked@, n as int) <= n,
                marks(marked@, n as int) - stack@.len() == before - popped.len(),
            decreases n - j,
        {
            assert(vs[j as int] == tangle.vertices@[j as int]@);
            if !marked[j] && trits_eq(&tangle.vertices[j].trunk, &tangle.vertices[current].hash) {
                let ghost held_marked = marked@;
                let ghost held = stack@;
                proof {
                    lemma_marks_grow(held_marked, j as int, n as int);
                    let steps = choose|steps: nat|
                        approves_in(vs, hash@, vs[current as int].hash, steps);
                    assert(approves_in(vs, hash@, vs[j as int].hash, steps + 1));
                }
                marked.set(j, true);
                stack.push(j);
                proof {
                    lemma_marks_bound(marked@, n as int);
                    assert(stack@[stack@.len() - 1] == j);
                    assert forall|u: usize| held.contains(u) implies stack@.contains(u) by {
                        let w = choose|w: int| 0 <= w < held.len() && held[w] == u;
                        assert(stack@[w] == u);
                    }
                }
            }
            j = j + 1;
        }
        proof {
            finished = finished.insert(current as int);
        }
    }
    proof {
        if approved_later(vs, hash@) {
            let (r, i) = choose|r: int, i: int|
                0 <= r < vs.len() && (#[trigger] vs[r]).hash == hash@ && 0 <= i < vs.len()
                    && approves(vs, hash@, (#[trigger] vs[i]).hash) && confirmed_above(
                    vs,
                    i,
                    vs[r].metadata.milestone_index,
                );
            if r != root {
                tangle.lemma_distinct(r, root as int);
            }
            let steps = choose|steps: nat| approves_in(vs, hash@, vs[i].hash, steps);
            assert forall|a: int, b: int|
                0 <= a < vs.len() && 0 <= b < vs.len() && marked@[a] && (#[trigger] vs[b]).trunk == (
                #[trigger] vs[a]).hash implies marked@[b] by {
                assert(finished.contains(a) || stack@.contains(a as usize));
            }
            lemma_marked_all(vs, hash@, marked@, vs[i].hash, steps);
            let m = choose|m: int|
                0 <= m < vs.len() && (#[trigger] vs[m]).hash == vs[i].hash && marked@[m];
            if m != i {
                tangle.lemma_distinct(m, i);
            }
            assert(finished.contains(i) || stack@.contains(i as usize));
            assert(false);
        }
    }
    Ok(false)
}

/// What is pruned: the milestones from `first` to `target`, both
/// included; none where `first` is above `target`.
#[derive(Clone, Copy, Debug, PartialEq, Eq, Structural)]
pub struct PruningPlan {
    /// The index that pruning goes up to: it becomes the entry point index.
    pub target: u32,
    /// The first milestone that is pruned.
    pub first: u32,
}

/// The highest index that may be pruned after a snapshot at
/// `snapshot_index`, if there is one: the history that the solid entry
/// points need, and a margin, stay.
pub open spec fn target_max(snapshot_index: u32) -> Option<u32> {
    if snapshot_index >= SOLID_ENTRY_POINT_CHECK_THRESHOLD_PAST + ADDITIONAL_PRUNING_THRESHOLD + 1 {
        Some(
            (snapshot_index - SOLID_ENTRY_POINT_CHECK_THRESHOLD_PAST - ADDITIONAL_PRUNING_THRESHOLD
                - 1) as u32,
        )
    } else {
        None
    }
}

/// The plan for pruning up to `target_index` after a snapshot at
/// `snapshot_index`, what was pruned before reaching up to
/// `pruning_index`: up to that index, or up to the highest that may be
/// pruned if that is lower, starting behind what was pruned before. There
/// is none where the snapshot leaves no index to prune.
pub open spec fn plan_of(snapshot_index: u32, pruning_index: u32, target_index: u32) -> Option<
    PruningPlan,
> {
    match target_max(snapshot_index) {
        Some(highest) => if pruning_index < u32::MAX {
            Some(
                PruningPlan {
                    target: if target_index > highest {
                        highest
                    } else {
                        target_index
                    },
                    first: (pruning_index + 1) as u32,
                },
            )
        } else {
            None
        },
        None => None,
    }
}

/// How far the database is pruned when pruning up to `target_index` is
/// asked for.
pub fn plan_pruning(tangle: &Tangle, target_index: u32) -> (plan: Option<PruningPlan>)
    ensures
        plan == plan_of(tangle.snapshot(), tangle.pruning(), target_index),
{
    let snapshot_index: u32 = tangle.get_snapshot_index();
    let reserve: u32 = SOLID_ENTRY_POINT_CHECK_THRESHOLD_PAST + ADDITIONAL_PRUNING_THRESHOLD + 1;
    if snapshot_index < reserve {
        return None;
    }
    let target_index_max: u32 = snapshot_index - reserve;
    let target: u32 = if target_index > target_index_max {
        target_index_max
    } else {
        target_index
    };
    let pruning_index: u32 = tangle.get_pruning_index();
    if pruning_index == u32::MAX {
        return None;
    }
    Some(PruningPlan { target, first: pruning_index + 1 })
}

/// Whether the walk from `root` to trunks and branches reaches `hash` in
/// `steps` steps.
pub open spec fn referenced_in(
    vertices: Seq<VertexView>,
    root: Seq<i8>,
    hash: Seq<i8>,
    steps: nat,
) -> bool
    decreases steps,
{
    if steps == 0 {
        hash == root
    } else {
        exists|i: int|
            0 <= i < vertices.len() && referenced_in(
                vertices,
                root,
                (#[trigger] vertices[i]).hash,
                (steps - 1) as nat,
            ) && (hash == vertices[i].trunk || hash == vertices[i].branch)
    }
}

/// Whether `hash` is `root` or in its past: the walk from `root` to
/// trunks and branches reaches it.
pub open spec fn referenced(vertices: Seq<VertexView>, root: Seq<i8>, hash: Seq<i8>) -> bool {
    exists|steps: nat| referenced_in(vertices, root, hash, steps)
}

/// From a hash that is not in the tangle the walk goes nowhere.
proof fn lemma_walk_from_nowhere(vertices: Seq<VertexView>, root: Seq<i8>, hash: Seq<i8>, steps: nat)
    requires
        !present(vertices, root),
        referenced_in(vertices, root, hash, steps),
    ensures
        hash == root,
    decreases steps,
{
    if steps > 0 {
        let i = choose|i: int|
            0 <= i < vertices.len() && referenced_in(
                vertices,
                root,
                (#[trigger] vertices[i]).hash,
                (steps - 1) as nat,
            ) && (hash == vertices[i].trunk || hash == vertices[i].branch);
        lemma_walk_from_nowhere(vertices, root, vertices[i].hash, (steps - 1) as nat);
    }
}

/// With the root marked and the trunk and the branch of every marked
/// vertex marked where they are in the tangle, whatever the walk reaches
/// in the tangle is marked.
proof fn lemma_marked_past(
    vertices: Seq<VertexView>,
    root: Seq<i8>,
    marked: Seq<bool>,
    hash: Seq<i8>,
    steps: nat,
)
    requires
        distinct_hashes(vertices),
        marked.len() == vertices.len(),
        exists|r: int| 0 <= r < vertices.len() && (#[trigger] vertices[r]).hash == root && marked[r],
        forall|i: int, p: int|
            0 <= i < vertices.len() && 0 <= p < vertices.len() && marked[i] && ((
            #[trigger] vertices[p]).hash == (#[trigger] vertices[i]).trunk || vertices[p].hash
                == vertices[i].branch) ==> marked[p],
        referenced_in(vertices, root, hash, steps),
        present(vertices, hash),
    ensures
        exists|m: int| 0 <= m < vertices.len() && (#[trigger] vertices[m]).hash == hash && marked[m],
    decreases steps,
{
    if steps > 0 {
        let i = choose|i: int|
            0 <= i < vertices.len() && referenced_in(
                vertices,
                root,
                (#[trigger] vertices[i]).hash,
                (steps - 1) as nat,
            ) && (hash == vertices[i].trunk || hash == vertices[i].branch);
        lemma_marked_past(vertices, root, marked, vertices[i].hash, (steps - 1) as nat);
        let m = choose|m: int|
            0 <= m < vertices.len() && (#[trigger] vertices[m]).hash == vertices[i].hash
                && marked[m];
        if m != i {
            if m < i {
                assert(vertices[m].hash != vertices[i].hash);
            } else {
                assert(vertices[i].hash != vertices[m].hash);
            }
        }
        let p = choose|p: int| 0 <= p < vertices.len() && (#[trigger] vertices[p]).hash == hash;
        assert(marked[p]);
    }
}

/// The transactions of the tangle that `root` references: `root` itself
/// and its whole past as far as the tangle holds it, each once. These are
/// the transactions that leave the database when a milestone whose tail
/// is `root` is pruned.
pub fn referenced_transactions(tangle: &Tangle, root: &Vec<i8>) -> (found: Vec<Vec<i8>>)
    requires
        tangle.wf(),
    ensures
        no_duplicates(hashes(found@)),
        forall|hash: Seq<i8>|
            #![trigger hashes(found@).contains(hash)]
            #![trigger referenced(tangle.vertices(), root@, hash)]
            hashes(found@).contains(hash) <==> referenced(tangle.vertices(), root@, hash)
                && present(tangle.vertices(), hash),
{
    let ghost vs = tangle.vertices();
    let mut found: Vec<Vec<i8>> = Vec::new();
    let start: usize = match tangle.position(root) {
        Some(p) => p,
        None => {
            proof {
                assert forall|hash: Seq<i8>|
                    !(referenced(vs, root@, hash) && present(vs, hash)) by {
                    if referenced(vs, root@, hash) {
                        let steps = choose|steps: nat| referenced_in(vs, root@, hash, steps);
                        lemma_walk_from_nowhere(vs, root@, hash, steps);
                    }
                }
            }
            return found;
        },
    };
    let n: usize = tangle.vertices.len();
    let mut marked: Vec<bool> = Vec::new();
    while marked.len() < n
        invariant
            marked@.len() <= n,
            forall|i: int| 0 <= i < marked@.len() ==> !marked@[i],
        decreases n - marked@.len(),
    {
        marked.push(false);
    }
    let mut stack: Vec<usize> = Vec::new();
    let ghost mut order: Seq<int> = Seq::empty();
    proof {
        lemma_marks_grow(marked@, start as int, n as int);
        assert(referenced_in(vs, root@, root@, 0));
    }
    marked.set(start, true);
    stack.push(start);
    assert(stack@[0] == start);
    proof {
        lemma_marks_bound(marked@, n as int);
    }
    while stack.len() > 0
        invariant
            tangle.wf(),
            vs == tangle.vertices(),
            n == vs.len(),
            n == tangle.vertices@.len(),
            marked@.len() == n,
            start < n,
            vs[start as int].hash == root@,
            marked@[start as int],
            forall|k: int|
                0 <= k < stack@.len() ==> #[trigger] stack@[k] < n && marked@[stack@[k] as int]
                    && !order.contains(stack@[k] as int),
            forall|j: int, k: int|
                0 <= j < k < stack@.len() ==> #[trigger] stack@[j] != #[trigger] stack@[k],
            forall|i: int| 0 <= i < n && #[trigger] marked@[i] ==> referenced(vs, root@, vs[i].hash),
            forall|i: int|
                0 <= i < n && #[trigger] marked@[i] ==> order.contains(i) || stack@.contains(
                    i as usize,
                ),
            order.len() == found@.len(),
            forall|k: int|
                0 <= k < order.len() ==> 0 <= #[trigger] order[k] < n && marked@[order[k]]
                    && found@[k]@ == vs[order[k]].hash,
            forall|j: int, k: int| 0 <= j < k < order.len() ==> #[trigger] order[j] != #[trigger] order[k],
            forall|k: int, p: int|
                0 <= k < order.len() && 0 <= p < n && ((#[trigger] vs[p]).hash == vs[
                    #[trigger] order[k]].trunk || vs[p].hash == vs[order[k]].branch) ==> marked@[p],
            0 <= marks(marked@, n as int) <= n,
        decreases n - marks(marked@, n as int) + stack@.len(),
    {
        let ghost held_stack = stack@;
        let ghost held_order = order;
        let ghost held_found = found@;
        let current: usize = stack.pop().unwrap();
        proof {
            assert(current == held_stack[held_stack.len() - 1]);
            assert(stack@ =~= held_stack.drop_last());
            assert forall|u: usize| held_stack.contains(u) implies stack@.contains(u) || u
                == current by {
                let w = choose|w: int| 0 <= w < held_stack.len() && held_stack[w] == u;
                if w < held_stack.len() - 1 {
                    assert(stack@[w] == u);
                }
            }
            assert(!stack@.contains(current)) by {
                if stack@.contains(current) {
                    let w = choose|w: int| 0 <= w < stack@.len() && stack@[w] == current;
                    assert(held_stack[w] != held_stack[held_stack.len() - 1]);
                }
            }
            assert(vs[current as int] == tangle.vertices@[current as int]@);
        }
        found.push(copy_trits(&tangle.vertices[current].hash));
        proof {
            order = order.push(current as int);
            assert(found@ =~= held_found.push(found@[found@.len() - 1]));
            assert forall|k: int| 0 <= k < order.len() implies 0 <= #[trigger] order[k] < n
                && marked@[order[k]] && found@[k]@ == vs[order[k]].hash by {
                if k < held_order.len() {
                    assert(order[k] == held_order[k]);
                    assert(found@[k] == held_found[k]);
                }
            }
            assert forall|j: int, k: int| 0 <= j < k < order.len() implies #[trigger] order[j]
                != #[trigger] order[k] by {
                assert(order[j] == held_order[j]);
                if k < held_order.len() {
                    assert(order[k] == held_order[k]);
                } else {
                    assert(held_order.contains(held_order[j]));
                }
            }
            assert forall|i: int| held_order.contains(i) implies order.contains(i) by {
                let w = choose|w: int| 0 <= w < held_order.len() && held_order[w] == i;
                assert(order[w] == i);
            }
            assert(order[order.len() - 1] == current);
        }
        let trunk_at = tangle.position(&tangle.vertices[current].trunk);
        let branch_at = tangle.position(&tangle.vertices[current].branch);
        let ghost steps: nat = choose|steps: nat| referenced_in(vs, root@, vs[current as int].hash, steps);
        let ghost before = marks(marked@, n as int);
        let ghost popped = stack@;
        let ghost marked_before = marked@;
        let mut side: usize = 0;
        while side < 2
            invariant
                tangle.wf(),
                vs == tangle.vertices(),
                n == vs.len(),
                n == tangle.vertices@.len(),
                marked@.len() == n,
                side <= 2,
                current < n,
                start < n,
                marked@[start as int],
                marked@[current as int],
                referenced_in(vs, root@, vs[current as int].hash, steps),
                trunk_at.is_some() == present(vs, vs[current as int].trunk),
                trunk_at matches Some(p) ==> p < n && vs[p as int].hash == vs[current as int].trunk,
                branch_at.is_some() == present(vs, vs[current as int].branch),
                branch_at matches Some(p) ==> p < n && vs[p as int].hash == vs[current as int].branch,
                order.contains(current as int),
                !stack@.contains(current),
                forall|k: int|
                    0 <= k < stack@.len() ==> #[trigger] stack@[k] < n && marked@[stack@[k] as int]
                        && !order.contains(stack@[k] as int),
                forall|j: int, k: int|
                    0 <= j < k < stack@.len() ==> #[trigger] stack@[j] != #[trigger] stack@[k],
                forall|i: int|
                    0 <= i < n && #[trigger] marked@[i] ==> referenced(vs, root@, vs[i].hash),
                forall|i: int|
                    0 <= i < n && #[trigger] marked@[i] ==> order.contains(i) || stack@.contains(
                        i as usize,
                    ),
                forall|k: int| 0 <= k < order.len() ==> 0 <= #[trigger] order[k] < n && marked@[order[k]],
                side >= 1 ==> (trunk_at matches Some(p) ==> marked@[p as int]),
                side >= 2 ==> (branch_at matches Some(p) ==> marked@[p as int]),
                0 <= marks(marked@, n as int) <= n,
                marks(marked@, n as int) - stack@.len() == before - popped.len(),
                forall|i: int| 0 <= i < n && marked_before[i] ==> #[trigger] marked@[i],
            decreases 2 - side,
        {
            let parent = if side == 0 {
                trunk_at
            } else {
                branch_at
            };
            match parent {
                Some(p) => {
                    if !marked[p] {
                        let ghost held_marked = marked@;
                        let ghost held = stack@;
                        proof {
                            lemma_marks_grow(held_marked, p as int, n as int);
                            assert(referenced_in(vs, root@, vs[p as int].hash, steps + 1));
                        }
                        marked.set(p, true);
                        stack.push(p);
                        proof {
                            lemma_marks_bound(marked@, n as int);
                            assert(stack@[stack@.len() - 1] == p);
                            assert forall|u: usize| held.contains(u) implies stack@.contains(u) by {
                                let w = choose|w: int| 0 <= w < held.len() && held[w] == u;
                                assert(stack@[w] == u);
                            }
                            assert(!order.contains(p as int)) by {
                                if order.contains(p as int) {
                                    let w = choose|w: int| 0 <= w < order.len() && order[w] == p as int;
                                    assert(held_marked[order[w]]);
                                }
                            }
                            assert forall|j: int, k: int| 0 <= j < k < stack@.len() implies #[trigger] stack@[j]
                                != #[trigger] stack@[k] by {
                                if k == stack@.len() - 1 {
                                    assert(held_marked[held[j] as int]);
                                }
                            }
                        }
                    }
                },
                None => {},
            }
            side = side + 1;
        }
        proof {
            assert forall|k: int, p: int|
                0 <= k < order.len() && 0 <= p < n && ((#[trigger] vs[p]).hash == vs[
                    #[trigger] order[k]].trunk || vs[p].hash == vs[order[k]].branch) implies marked@[p] by {
                if k < held_order.len() {
                    assert(order[k] == held_order[k]);
                    assert(marked_before[p]);
                } else {
                    assert(order[k] == current);
                    if vs[p].hash == vs[current as int].trunk {
                        assert(present(vs, vs[current as int].trunk));
                        let q = trunk_at.unwrap();
                        if q as int != p {
                            tangle.lemma_distinct(q as int, p);
                        }
                    } else {
                        assert(present(vs, vs[current as int].branch));
                        let q = branch_at.unwrap();
                        if q as int != p {
                            tangle.lemma_distinct(q as int, p);
                        }
                    }
                }
            }
        }
    }
    proof {
        let list = hashes(found@);
        assert forall|i: int, j: int| 0 <= i < j < list.len() implies #[trigger] list[i]
            != #[trigger] list[j] by {
            assert(order[i] != order[j]);
            assert(list[i] == vs[order[i]].hash);
            assert(list[j] == vs[order[j]].hash);
            if list[i] == list[j] {
                tangle.lemma_distinct(order[i], order[j]);
            }
        }
        assert forall|hash: Seq<i8>| list.contains(hash) <==> referenced(vs, root@, hash) && present(
            vs,
            hash,
        ) by {
            if list.contains(hash) {
                let k = choose|k: int| 0 <= k < list.len() && list[k] == hash;
                assert(found@[k]@ == vs[order[k]].hash);
                assert(marked@[order[k]]);
            }
            if referenced(vs, root@, hash) && present(vs, hash) {
                let steps = choose|steps: nat| referenced_in(vs, root@, hash, steps);
                assert forall|i: int, p: int|
                    0 <= i < vs.len() && 0 <= p < vs.len() && marked@[i] && ((#[trigger] vs[p]).hash == (
                    #[trigger] vs[i]).trunk || vs[p].hash == vs[i].branch) implies marked@[p] by {
                    assert(order.contains(i) || stack@.contains(i as usize));
                    let w = choose|w: int| 0 <= w < order.len() && order[w] == i;
                    assert(vs[p].hash == vs[order[w]].trunk || vs[p].hash == vs[order[w]].branch);
                }
                lemma_marked_past(vs, root@, marked@, hash, steps);
                let m = choose|m: int| 0 <= m < vs.len() && (#[trigger] vs[m]).hash == hash && marked@[m];
                assert(order.contains(m) || stack@.contains(m as usize));
                let w = choose|w: int| 0 <= w < order.len() && order[w] == m;
                assert(list[w] == hash);
            }
        }
    }
    found
}

/// Whether `list` holds what pruning the milestone `index` takes out of
/// the database: the milestone is known, and the list holds, each once,
/// the transactions of the tangle that its tail references.
pub open spec fn prunes(
    vertices: Seq<VertexView>,
    milestone_indices: Seq<u32>,
    milestone_hashes: Seq<Seq<i8>>,
    index: u32,
    list: Seq<Seq<i8>>,
) -> bool {
    exists|m: int|
        0 <= m < milestone_indices.len() && #[trigger] milestone_indices[m] == index
            && no_duplicates(list) && (forall|hash: Seq<i8>|
            #![trigger list.contains(hash)]
            list.contains(hash) <==> referenced(vertices, milestone_hashes[m], hash) && present(
                vertices,
                hash,
            ))
}

/// Prunes one milestone: where the milestone is known, the transactions
/// that it references are to leave the database, and the pruning index
/// becomes its index; where it is not, nothing is pruned and the pruning
/// index stays. The tangle keeps its transactions.
pub fn prune_milestone_transactions(tangle: &mut Tangle, milestone_index: u32) -> (pruned: Option<
    Vec<Vec<i8>>,
>)
    requires
        old(tangle).wf(),
    ensures
        final(tangle).wf(),
        pruned.is_some() == old(tangle).milestone_indices().contains(milestone_index),
        final(tangle).pruning() == (if pruned.is_some() {
            milestone_index
        } else {
            old(tangle).pruning()
        }),
        pruned matches Some(list) ==> prunes(
            old(tangle).vertices(),
            old(tangle).milestone_indices(),
            old(tangle).milestone_hashes(),
            milestone_index,
            hashes(list@),
        ),
        final(tangle).vertices() == old(tangle).vertices(),
        final(tangle).entry_points() == old(tangle).entry_points(),
        final(tangle).milestone_indices() == old(tangle).milestone_indices(),
        final(tangle).milestone_hashes() == old(tangle).milestone_hashes(),
        final(tangle).latest() == old(tangle).latest(),
        final(tangle).latest_solid() == old(tangle).latest_solid(),
        final(tangle).snapshot() == old(tangle).snapshot(),
{
    let root = match tangle.get_milestone_hash(milestone_index) {
        Some(hash) => hash,
        None => {
            return None;
        },
    };
    let list = referenced_transactions(tangle, &root);
    tangle.update_pruning_index(milestone_index);
    Some(list)
}

/// Replaces the solid entry points of the tangle by `points`, as pruning
/// does before it takes anything away: the old ones are forgotten, and the
/// new ones are taken in their order.
pub fn replace_solid_entry_points(tangle: &mut Tangle, points: &Vec<SolidEntryPoint>)
    ensures
        final(tangle).entry_points() == entry_hashes(points@),
        final(tangle).entry_point_indices() == entry_indices(points@),
        final(tangle).vertices() == old(tangle).vertices(),
        final(tangle).milestone_indices() == old(tangle).milestone_indices(),
        final(tangle).milestone_hashes() == old(tangle).milestone_hashes(),
        final(tangle).latest() == old(tangle).latest(),
        final(tangle).latest_solid() == old(tangle).latest_solid(),
        final(tangle).snapshot() == old(tangle).snapshot(),
        final(tangle).pruning() == old(tangle).pruning(),
{
    tangle.clear_solid_entry_points();
    let mut i: usize = 0;
    assert(tangle.entry_points() =~= entry_hashes(points@).subrange(0, 0));
    assert(tangle.entry_point_indices() =~= entry_indices(points@).subrange(0, 0));
    while i < points.len()
        invariant
            i <= points@.len(),
            tangle.entry_points() == entry_hashes(points@).subrange(0, i as int),
            tangle.entry_point_indices() == entry_indices(points@).subrange(0, i as int),
            tangle.vertices() == old(tangle).vertices(),
            tangle.milestone_indices() == old(tangle).milestone_indices(),
            tangle.milestone_hashes() == old(tangle).milestone_hashes(),
            tangle.latest() == old(tangle).latest(),
            tangle.latest_solid() == old(tangle).latest_solid(),
            tangle.snapshot() == old(tangle).snapshot(),
            tangle.pruning() == old(tangle).pruning(),
        decreases points@.len() - i,
    {
        tangle.add_solid_entry_point(copy_trits(&points[i].hash), points[i].index);
        i = i + 1;
        proof {
            assert(tangle.entry_points() =~= entry_hashes(points@).subrange(0, i as int));
            assert(tangle.entry_point_indices() =~= entry_indices(points@).subrange(0, i as int));
        }
    }
    proof {
        let n = points@.len() as int;
        assert(entry_hashes(points@).subrange(0, n) =~= entry_hashes(points@));
        assert(entry_indices(points@).subrange(0, n) =~= entry_indices(points@));
    }
}

/// A milestone that was pruned, with the transactions that leave the
/// database with it.
#[derive(Debug)]
pub struct PrunedMilestone {
    pub index: u32,
    pub transactions: Vec<Vec<i8>>,
}

/// The indices from `first` up to and without `end` that are among
/// `indices`, rising.
pub open spec fn known_between(indices: Seq<u32>, first: int, end: int) -> Seq<u32>
    decreases end - first,
{
    if first >= end {
        Seq::empty()
    } else if indices.contains((end - 1) as u32) {
        known_between(indices, first, end - 1).push((end - 1) as u32)
    } else {
        known_between(indices, first, end - 1)
    }
}

/// The indices of pruned milestones, in order.
pub open spec fn pruned_indices(pruned: Seq<PrunedMilestone>) -> Seq<u32> {
    Seq::new(pruned.len(), |k: int| pruned[k].index)
}

/// Prunes the database up to the milestone `target_index`, or as far as
/// the snapshot allows if that is less: the milestones of the plan are
/// pruned one after another, lowest first, and a milestone that the tangle
/// does not know is passed over. Returns the milestones that were pruned,
/// each with the transactions that are to leave the database; the pruning
/// index is then the index of the last of them.
pub fn prune_database(tangle: &mut Tangle, target_index: u32) -> (pruned: Vec<PrunedMilestone>)
    requires
        old(tangle).wf(),
    ensures
        final(tangle).wf(),
        pruned_indices(pruned@) == (match plan_of(old(tangle).snapshot(), old(tangle).pruning(), target_index) {
            Some(plan) => known_between(
                old(tangle).milestone_indices(),
                plan.first as int,
                plan.target + 1,
            ),
            None => Seq::<u32>::empty(),
        }),
        forall|k: int|
            0 <= k < pruned@.len() ==> prunes(
                old(tangle).vertices(),
                old(tangle).milestone_indices(),
                old(tangle).milestone_hashes(),
                (#[trigger] pruned@[k]).index,
                hashes(pruned@[k].transactions@),
            ),
        final(tangle).pruning() == (if pruned@.len() > 0 {
            pruned@.last().index
        } else {
            old(tangle).pruning()
        }),
        final(tangle).vertices() == old(tangle).vertices(),
        final(tangle).entry_points() == old(tangle).entry_points(),
        final(tangle).milestone_indices() == old(tangle).milestone_indices(),
        final(tangle).milestone_hashes() == old(tangle).milestone_hashes(),
        final(tangle).latest() == old(tangle).latest(),
        final(tangle).latest_solid() == old(tangle).latest_solid(),
        final(tangle).snapshot() == old(tangle).snapshot(),
{
    let mut pruned: Vec<PrunedMilestone> = Vec::new();
    let plan = match plan_pruning(tangle, target_index) {
        Some(plan) => plan,
        None => {
            assert(pruned_indices(pruned@) =~= Seq::<u32>::empty());
            return pruned;
        },
    };
    let ghost indices = tangle.milestone_indices();
    let ghost vs = tangle.vertices();
    let ghost tails = tangle.milestone_hashes();
    let mut next: u64 = plan.first as u64;
    assert(pruned_indices(pruned@) =~= known_between(indices, plan.first as int, next as int));
    while next <= plan.target as u64
        invariant
            tangle.wf(),
            plan.first <= next,
            next <= plan.target + 1 || next == plan.first,
            indices == tangle.milestone_indices(),
            vs == tangle.vertices(),
            tails == tangle.milestone_hashes(),
            tangle.entry_points() == old(tangle).entry_points(),
            tangle.latest() == old(tangle).latest(),
            tangle.latest_solid() == old(tangle).latest_solid(),
            tangle.snapshot() == old(tangle).snapshot(),
            pruned_indices(pruned@) == known_between(indices, plan.first as int, next as int),
            forall|k: int|
                0 <= k < pruned@.len() ==> prunes(
                    vs,
                    indices,
                    tails,
                    (#[trigger] pruned@[k]).index,
                    hashes(pruned@[k].transactions@),
                ),
            tangle.pruning() == (if pruned@.len() > 0 {
                pruned@.last().index
            } else {
                old(tangle).pruning()
            }),
        decreases plan.target + 1 - next,
    {
        let index: u32 = next as u32;
        let ghost held = pruned@;
        match prune_milestone_transactions(tangle, index) {
            Some(transactions) => {
                pruned.push(PrunedMilestone { index, transactions });
                proof {
                    assert(pruned_indices(pruned@) =~= pruned_indices(held).push(index));
                    assert forall|k: int| 0 <= k < pruned@.len() implies prunes(
                        vs,
                        indices,
                        tails,
                        (#[trigger] pruned@[k]).index,
                        hashes(pruned@[k].transactions@),
                    ) by {
                        if k < held.len() {
                            assert(pruned@[k] == held[k]);
                        }
                    }
                }
            },
            None => {},
        }
        next = next + 1;
    }
    pruned
}

} // verus!
