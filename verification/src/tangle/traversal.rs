//! The walk from a transaction through its past that finds what is missing.
//!
//! The walk starts at a root and goes from a transaction to its trunk and
//! its branch as long as the transaction is worth walking through: it is
//! not solid, it is not being asked for already, and it was not itself
//! asked for, unless it is the root. A hash that the walk reaches and that
//! is neither in the tangle nor a solid entry point is missing.

use vstd::prelude::*;
use crate::bundle::transaction::copy_trits;
use crate::protocol::worker::requester::{is_requested, RequestedTransactions};
use crate::tangle::graph::{is_entry_point, present, Tangle, VertexView};
use crate::ternary::trits::trits_eq;

verus! {

/// Whether the walk from `root` goes on through `vertex`.
pub open spec fn walks_through(
    vertex: VertexView,
    root: Seq<i8>,
    requested: Map<Seq<i8>, (u32, u64)>,
) -> bool {
    &&& !vertex.metadata.flags.requested || vertex.hash == root
    &&& !vertex.metadata.flags.solid
    &&& !is_requested(requested, vertex.hash)
}

/// Whether the walk from `root` reaches `hash` in `steps` steps.
pub open spec fn reached_in(
    vertices: Seq<VertexView>,
    requested: Map<Seq<i8>, (u32, u64)>,
    root: Seq<i8>,
    hash: Seq<i8>,
    steps: nat,
) -> bool
    decreases steps,
{
    if steps == 0 {
        hash == root
    } else {
        exists|i: int|
            0 <= i < vertices.len() && reached_in(
                vertices,
                requested,
                root,
                (#[trigger] vertices[i]).hash,
                (steps - 1) as nat,
            ) && walks_through(vertices[i], root, requested) && (hash == vertices[i].trunk || hash
                == vertices[i].branch)
    }
}

/// Whether the walk from `root` reaches `hash`.
pub open spec fn reached(
    vertices: Seq<VertexView>,
    requested: Map<Seq<i8>, (u32, u64)>,
    root: Seq<i8>,
    hash: Seq<i8>,
) -> bool {
    exists|steps: nat| reached_in(vertices, requested, root, hash, steps)
}

/// The hashes that the vectors hold.
pub open spec fn hashes(list: Seq<Vec<i8>>) -> Seq<Seq<i8>> {
    Seq::new(list.len(), |i: int| list[i]@)
}

/// No hash occurs twice.
pub open spec fn no_duplicates(list: Seq<Seq<i8>>) -> bool {
    forall|i: int, j: int| 0 <= i < j < list.len() ==> #[trigger] list[i] != #[trigger] list[j]
}

/// The number of vertices among the first `n` whose hash is not in `visited`.
pub open spec fn unvisited(vertices: Seq<VertexView>, visited: Seq<Seq<i8>>, n: int) -> int
    decreases n,
{
    if n <= 0 {
        0
    } else {
        unvisited(vertices, visited, n - 1) + if visited.contains(vertices[n - 1].hash) {
            0int
        } else {
            1int
        }
    }
}

proof fn lemma_unvisited_shrinks(
    vertices: Seq<VertexView>,
    visited: Seq<Seq<i8>>,
    hash: Seq<i8>,
    n: int,
)
    requires
        0 <= n <= vertices.len(),
    ensures
        0 <= unvisited(vertices, visited.push(hash), n) <= unvisited(vertices, visited, n),
    decreases n,
{
    if n > 0 {
        lemma_unvisited_shrinks(vertices, visited, hash, n - 1);
        if visited.contains(vertices[n - 1].hash) {
            let w = choose|w: int| 0 <= w < visited.len() && visited[w] == vertices[n - 1].hash;
            assert(visited.push(hash)[w] == vertices[n - 1].hash);
        }
    }
}

proof fn lemma_unvisited_drops(
    vertices: Seq<VertexView>,
    visited: Seq<Seq<i8>>,
    p: int,
    n: int,
)
    requires
        0 <= p < vertices.len(),
        0 <= n <= vertices.len(),
        !visited.contains(vertices[p].hash),
    ensures
        unvisited(vertices, visited.push(vertices[p].hash), n) <= unvisited(vertices, visited, n)
            - if p < n {
            1int
        } else {
            0int
        },
    decreases n,
{
    if n > 0 {
        lemma_unvisited_drops(vertices, visited, p, n - 1);
        let grown = visited.push(vertices[p].hash);
        if visited.contains(vertices[n - 1].hash) {
            let w = choose|w: int| 0 <= w < visited.len() && visited[w] == vertices[n - 1].hash;
            assert(grown[w] == vertices[n - 1].hash);
        }
        if n - 1 == p {
            assert(grown[grown.len() - 1] == vertices[p].hash);
        }
    }
}

/// Whether `hash` is among the hashes that `list` holds.
fn list_contains(list: &Vec<Vec<i8>>, hash: &Vec<i8>) -> (found: bool)
    ensures
        found == hashes(list@).contains(hash@),
{
    let mut i: usize = 0;
    while i < list.len()
        invariant
            i <= list@.len(),
            forall|j: int| 0 <= j < i ==> hashes(list@)[j] != hash@,
        decreases list@.len() - i,
    {
        if trits_eq(&list[i], hash) {
            assert(hashes(list@)[i as int] == hash@);
            return true;
        }
        i = i + 1;
    }
    false
}

/// What the walk has closed: with nothing left to visit, everything that
/// the walk reaches was visited.
proof fn lemma_closed(
    vertices: Seq<VertexView>,
    requested: Map<Seq<i8>, (u32, u64)>,
    root: Seq<i8>,
    visited: Seq<Seq<i8>>,
    hash: Seq<i8>,
    steps: nat,
)
    requires
        visited.contains(root),
        forall|i: int|
            0 <= i < vertices.len() && visited.contains((#[trigger] vertices[i]).hash)
                && walks_through(vertices[i], root, requested) ==> visited.contains(
                vertices[i].trunk,
            ) && visited.contains(vertices[i].branch),
        reached_in(vertices, requested, root, hash, steps),
    ensures
        visited.contains(hash),
    decreases steps,
{
    if steps > 0 {
        let i = choose|i: int|
            0 <= i < vertices.len() && reached_in(
                vertices,
                requested,
                root,
                (#[trigger] vertices[i]).hash,
                (steps - 1) as nat,
            ) && walks_through(vertices[i], root, requested) && (hash == vertices[i].trunk || hash
                == vertices[i].branch);
        lemma_closed(vertices, requested, root, visited, vertices[i].hash, (steps - 1) as nat);
    }
}

/// The hashes that the walk from `root` reaches and that are neither in
/// the tangle nor solid entry points: each once, in the order in which the
/// walk comes upon them, going to the branch of a transaction before its trunk.
pub fn missing_ancestors(tangle: &Tangle, requested: &RequestedTransactions, root: &Vec<i8>) -> (missing:
    Vec<Vec<i8>>)
    requires
        tangle.wf(),
    ensures
        no_duplicates(hashes(missing@)),
        forall|hash: Seq<i8>|
            #![trigger hashes(missing@).contains(hash)]
            #![trigger reached(tangle.vertices(), requested.requested(), root@, hash)]
            hashes(missing@).contains(hash) <==> reached(
                tangle.vertices(),
                requested.requested(),
                root@,
                hash,
            ) && !present(tangle.vertices(), hash) && !is_entry_point(tangle.entry_points(), hash),
{
    let ghost vs = tangle.vertices();
    let ghost rq = requested.requested();
    let ghost seps = tangle.entry_points();
    let mut missing: Vec<Vec<i8>> = Vec::new();
    let mut visited: Vec<Vec<i8>> = Vec::new();
    let mut stack: Vec<Vec<i8>> = Vec::new();
    stack.push(copy_trits(root));
    proof {
        assert(reached_in(vs, rq, root@, root@, 0));
        assert(hashes(stack@)[0] == root@);
    }
    while stack.len() > 0
        invariant
            tangle.wf(),
            vs == tangle.vertices(),
            rq == requested.requested(),
            seps == tangle.entry_points(),
            no_duplicates(hashes(visited@)),
            no_duplicates(hashes(missing@)),
            forall|k: int|
                0 <= k < stack@.len() ==> reached(vs, rq, root@, #[trigger] hashes(stack@)[k]),
            forall|k: int|
                0 <= k < visited@.len() ==> reached(vs, rq, root@, #[trigger] hashes(visited@)[k]),
            hashes(visited@).contains(root@) || hashes(stack@).contains(root@),
            forall|i: int|
                0 <= i < vs.len() && hashes(visited@).contains((#[trigger] vs[i]).hash)
                    && walks_through(vs[i], root@, rq) ==> (hashes(visited@).contains(vs[i].trunk)
                    || hashes(stack@).contains(vs[i].trunk)) && (hashes(visited@).contains(
                    vs[i].branch,
                ) || hashes(stack@).contains(vs[i].branch)),
            forall|k: int|
                0 <= k < missing@.len() ==> hashes(visited@).contains(#[trigger] hashes(missing@)[k])
                    && !present(vs, hashes(missing@)[k]) && !is_entry_point(
                    seps,
                    hashes(missing@)[k],
                ),
            forall|k: int|
                0 <= k < visited@.len() && !present(vs, #[trigger] hashes(visited@)[k])
                    && !is_entry_point(seps, hashes(visited@)[k]) ==> hashes(missing@).contains(
                    hashes(visited@)[k],
                ),
        decreases unvisited(vs, hashes(visited@), vs.len() as int), stack@.len(),
    {
        let ghost held_stack = hashes(stack@);
        let ghost held_visited = hashes(visited@);
        let ghost held_missing = hashes(missing@);
        let current = stack.pop().unwrap();
        proof {
            assert(current@ == held_stack[held_stack.len() - 1]);
            assert(hashes(stack@) =~= held_stack.drop_last());
            assert(reached(vs, rq, root@, current@));
            lemma_unvisited_shrinks(vs, held_visited, current@, vs.len() as int);
            assert forall|h: Seq<i8>| held_stack.contains(h) implies hashes(stack@).contains(h) || h
                == current@ by {
                let w = choose|w: int| 0 <= w < held_stack.len() && held_stack[w] == h;
                if w < held_stack.len() - 1 {
                    assert(hashes(stack@)[w] == h);
                }
            }
        }
        if list_contains(&visited, &current) {
            // Seen before: nothing to do.
        } else {
            let steps: Ghost<nat> = Ghost(
                choose|steps: nat| reached_in(vs, rq, root@, current@, steps),
            );
            match tangle.position(&current) {
                Some(p) => {
                    assert(vs[p as int] == tangle.vertices@[p as int]@);
                    let metadata = tangle.vertices[p].metadata;
                    let through = (!metadata.flags.requested || trits_eq(&current, root))
                        && !metadata.flags.solid && !requested.contains_key(&current);
                    assert(through == walks_through(vs[p as int], root@, rq));
                    if through {
                        let trunk = copy_trits(&tangle.vertices[p].trunk);
                        let branch = copy_trits(&tangle.vertices[p].branch);
                        let ghost before_push = hashes(stack@);
                        stack.push(trunk);
                        stack.push(branch);
                        proof {
                            let now = hashes(stack@);
                            assert(now =~= before_push.push(vs[p as int].trunk).push(
                                vs[p as int].branch,
                            ));
                            assert(reached_in(vs, rq, root@, vs[p as int].trunk, steps@ + 1));
                            assert(reached_in(vs, rq, root@, vs[p as int].branch, steps@ + 1));
                            assert forall|k: int| 0 <= k < now.len() implies reached(
                                vs,
                                rq,
                                root@,
                                #[trigger] now[k],
                            ) by {
                                if k < before_push.len() {
                                    assert(now[k] == before_push[k]);
                                    assert(before_push[k] == held_stack[k]);
                                }
                            }
                            assert forall|h: Seq<i8>| before_push.contains(h) implies now.contains(
                                h,
                            ) by {
                                let w = choose|w: int|
                                    0 <= w < before_push.len() && before_push[w] == h;
                                assert(now[w] == h);
                            }
                            assert(now[now.len() - 2] == vs[p as int].trunk);
                            assert(now[now.len() - 1] == vs[p as int].branch);
                        }
                    }
                    proof {
                        lemma_unvisited_drops(vs, held_visited, p as int, vs.len() as int);
                    }
                },
                None => {
                    if !tangle.is_solid_entry_point(&current) {
                        missing.push(copy_trits(&current));
                        proof {
                            let now = hashes(missing@);
                            assert(now =~= held_missing.push(current@));
                            assert forall|i: int, j: int| 0 <= i < j < now.len() implies #[trigger] now[i]
                                != #[trigger] now[j] by {
                                if j == now.len() - 1 {
                                    assert(held_visited.contains(held_missing[i]));
                                }
                            }
                        }
                    }
                },
            }
            visited.push(current);
            proof {
                let now_visited = hashes(visited@);
                let now_stack = hashes(stack@);
                let now_missing = hashes(missing@);
                assert(now_visited =~= held_visited.push(current@));
                assert(now_visited[now_visited.len() - 1] == current@);
                assert forall|h: Seq<i8>| held_visited.contains(h) implies now_visited.contains(
                    h,
                ) by {
                    let w = choose|w: int| 0 <= w < held_visited.len() && held_visited[w] == h;
                    assert(now_visited[w] == h);
                }
                assert forall|h: Seq<i8>| held_missing.contains(h) implies now_missing.contains(
                    h,
                ) by {
                    let w = choose|w: int| 0 <= w < held_missing.len() && held_missing[w] == h;
                    assert(now_missing[w] == h);
                }
                assert forall|i: int, j: int| 0 <= i < j < now_visited.len() implies #[trigger] now_visited[i]
                    != #[trigger] now_visited[j] by {
                    if j == now_visited.len() - 1 {
                        assert(held_visited.contains(now_visited[i]));
                    }
                }
                assert forall|k: int| 0 <= k < now_visited.len() implies reached(
                    vs,
                    rq,
                    root@,
                    #[trigger] now_visited[k],
                ) by {
                    if k < held_visited.len() {
                        assert(now_visited[k] == held_visited[k]);
                    }
                }
                assert forall|k: int| 0 <= k < now_missing.len() implies now_visited.contains(
                    #[trigger] now_missing[k],
                ) && !present(vs, now_missing[k]) && !is_entry_point(seps, now_missing[k]) by {
                    if k < held_missing.len() {
                        assert(now_missing[k] == held_missing[k]);
                    }
                }
                assert forall|k: int|
                    0 <= k < now_visited.len() && !present(vs, #[trigger] now_visited[k])
                        && !is_entry_point(seps, now_visited[k]) implies now_missing.contains(
                    now_visited[k],
                ) by {
                    if k < held_visited.len() {
                        assert(now_visited[k] == held_visited[k]);
                        assert(held_missing.contains(held_visited[k]));
                    } else {
                        assert(now_missing[now_missing.len() - 1] == current@);
                    }
                }
                assert forall|i: int|
                    0 <= i < vs.len() && now_visited.contains((#[trigger] vs[i]).hash)
                        && walks_through(vs[i], root@, rq) implies (now_visited.contains(
                    vs[i].trunk,
                ) || now_stack.contains(vs[i].trunk)) && (now_visited.contains(vs[i].branch)
                    || now_stack.contains(vs[i].branch)) by {
                    if held_visited.contains(vs[i].hash) {
                        assert(held_visited.contains(vs[i].trunk) || held_stack.contains(
                            vs[i].trunk,
                        ));
                        assert(held_visited.contains(vs[i].branch) || held_stack.contains(
                            vs[i].branch,
                        ));
                    } else {
                        let w = choose|w: int|
                            0 <= w < now_visited.len() && now_visited[w] == vs[i].hash;
                        assert(w == now_visited.len() - 1);
                        assert(vs[i].hash == current@);
                        let p = choose|p: int| 0 <= p < vs.len() && (#[trigger] vs[p]).hash == current@;
                        if i != p {
                            if i < p {
                                assert(vs[i].hash != vs[p].hash);
                            } else {
                                assert(vs[p].hash != vs[i].hash);
                            }
                        }
                    }
                }
            }
        }
    }
    proof {
        assert(hashes(stack@).len() == 0);
        let visited_hashes = hashes(visited@);
        let missing_hashes = hashes(missing@);
        assert(visited_hashes.contains(root@));
        assert forall|hash: Seq<i8>| missing_hashes.contains(hash) <==> reached(
            vs,
            rq,
            root@,
            hash,
        ) && !present(vs, hash) && !is_entry_point(seps, hash) by {
            if missing_hashes.contains(hash) {
                let k = choose|k: int| 0 <= k < missing_hashes.len() && missing_hashes[k] == hash;
                assert(visited_hashes.contains(missing_hashes[k]));
                let w = choose|w: int|
                    0 <= w < visited_hashes.len() && visited_hashes[w] == hash;
                assert(reached(vs, rq, root@, visited_hashes[w]));
            }
            if reached(vs, rq, root@, hash) && !present(vs, hash) && !is_entry_point(seps, hash) {
                let steps = choose|steps: nat| reached_in(vs, rq, root@, hash, steps);
                assert forall|i: int|
                    0 <= i < vs.len() && visited_hashes.contains((#[trigger] vs[i]).hash)
                        && walks_through(vs[i], root@, rq) implies visited_hashes.contains(
                    vs[i].trunk,
                ) && visited_hashes.contains(vs[i].branch) by {
                    assert(!hashes(stack@).contains(vs[i].trunk));
                    assert(!hashes(stack@).contains(vs[i].branch));
                }
                lemma_closed(vs, rq, root@, visited_hashes, hash, steps);
                let w = choose|w: int|
                    0 <= w < visited_hashes.len() && visited_hashes[w] == hash;
                assert(missing_hashes.contains(visited_hashes[w]));
            }
        }
    }
    missing
}

} // verus!
