//! Task dependencies: resolving the edges of a new task against history and
//! the active queue, and rejecting circular dependencies.

use vstd::prelude::*;
use crate::store::error::StoreError;
use crate::task::status::{DependencyFailurePolicy, HistoryStatus, TaskStatus};

verus! {

/// Whether `id` occurs in `v`.
pub fn contains_id(v: &Vec<i64>, id: i64) -> (r: bool)
    ensures
        r == v@.contains(id),
{
    let mut i: usize = 0;
    while i < v.len()
        invariant
            i <= v@.len(),
            forall|k: int| 0 <= k < i ==> v@[k] != id,
        decreases v@.len() - i,
    {
        if v[i] == id {
            return true;
        }
        i = i + 1;
    }
    false
}

/// The latest history status recorded for `id` among `rows`: when several
/// rows name the same task, the last one wins.
pub open spec fn history_lookup(rows: Seq<(i64, HistoryStatus)>, id: i64) -> Option<HistoryStatus>
    decreases rows.len(),
{
    if rows.len() == 0 {
        None
    } else if rows.last().0 == id {
        Some(rows.last().1)
    } else {
        history_lookup(rows.drop_last(), id)
    }
}

/// A dependency that finished in history other than completed, under a
/// policy that does not ignore failures.
pub open spec fn dependency_fails(
    rows: Seq<(i64, HistoryStatus)>,
    policy: DependencyFailurePolicy,
    id: i64,
) -> bool {
    match history_lookup(rows, id) {
        Some(s) => s != HistoryStatus::Completed && policy != DependencyFailurePolicy::Ignore,
        None => false,
    }
}

/// The dependencies absent from history, in submission order: these must be
/// active tasks and become edges of the new task.
pub open spec fn unresolved_dependencies(rows: Seq<(i64, HistoryStatus)>, deps: Seq<i64>) -> Seq<
    i64,
>
    decreases deps.len(),
{
    if deps.len() == 0 {
        Seq::empty()
    } else {
        let rest = unresolved_dependencies(rows, deps.drop_last());
        if history_lookup(rows, deps.last()) is None {
            rest.push(deps.last())
        } else {
            rest
        }
    }
}

fn lookup_history(rows: &Vec<(i64, HistoryStatus)>, id: i64) -> (r: Option<HistoryStatus>)
    ensures
        r == history_lookup(rows@, id),
{
    let mut i: usize = rows.len();
    proof {
        assert(rows@.take(i as int) =~= rows@);
    }
    while i > 0
        invariant
            i <= rows@.len(),
            history_lookup(rows@, id) == history_lookup(rows@.take(i as int), id),
        decreases i,
    {
        let ghost pre = rows@.take(i as int);
        assert(pre.drop_last() =~= rows@.take(i - 1));
        if rows[i - 1].0 == id {
            return Some(rows[i - 1].1);
        }
        i = i - 1;
    }
    proof {
        assert(rows@.take(0) =~= Seq::<(i64, HistoryStatus)>::empty());
    }
    None
}

/// Resolve the dependency edges of a newly created task.
///
/// `history` holds the latest history row of each dependency found there,
/// `active` the dependencies found in the active queue. A dependency that
/// completed needs no edge; one that failed aborts the submission unless the
/// policy ignores failures; one found nowhere is invalid. Returns the
/// dependencies that become edges and the task's status: `Blocked` when
/// there is at least one edge, `Pending` otherwise.
pub fn resolve_dependency_edges(
    deps: &Vec<i64>,
    history: &Vec<(i64, HistoryStatus)>,
    active: &Vec<i64>,
    policy: DependencyFailurePolicy,
) -> (r: Result<(Vec<i64>, TaskStatus), StoreError>)
    ensures
        // The first dependency (in order) that failed aborts the submission.
        forall|i: int|
            0 <= i < deps@.len() && dependency_fails(history@, policy, deps@[i]) && (forall|k: int|
                0 <= k < i ==> !dependency_fails(history@, policy, #[trigger] deps@[k])) ==> (
            r matches Err(StoreError::DependencyFailed(d)) && d == deps@[i]),
        // Otherwise the first unresolved dependency that is not active is invalid.
        (forall|k: int| 0 <= k < deps@.len() ==> !dependency_fails(history@, policy, #[trigger] deps@[k]))
            ==> {
            let need = unresolved_dependencies(history@, deps@);
            &&& forall|j: int|
                0 <= j < need.len() && !active@.contains(need[j]) && (forall|k: int|
                    0 <= k < j ==> active@.contains(#[trigger] need[k])) ==> (
            r matches Err(StoreError::InvalidDependency(d)) && d == need[j])
            &&& (forall|j: int| 0 <= j < need.len() ==> active@.contains(#[trigger] need[j])) ==> (
            r matches Ok((edges, status)) && edges@ == need && (status == if need.len() == 0 {
                TaskStatus::Pending
            } else {
                TaskStatus::Blocked
            }))
        },
        // A submission goes through only when every dependency's latest
        // history row, if any, is `Completed`, or failures are ignored.
        r is Ok ==> forall|k: int, h: int|
            0 <= k < deps@.len() && 0 <= h < history@.len() && #[trigger] history@[h].0 == #[trigger] deps@[k]
                && (forall|j: int| h < j < history@.len() ==> #[trigger] history@[j].0 != deps@[k]) ==> (
            history@[h].1 == HistoryStatus::Completed || policy == DependencyFailurePolicy::Ignore),
{
    let mut need: Vec<i64> = Vec::new();
    let mut i: usize = 0;
    while i < deps.len()
        invariant
            i <= deps@.len(),
            forall|k: int| 0 <= k < i ==> !dependency_fails(history@, policy, #[trigger] deps@[k]),
            need@ == unresolved_dependencies(history@, deps@.take(i as int)),
        decreases deps@.len() - i,
    {
        let d = deps[i];
        let ghost pre = deps@.take(i as int + 1);
        assert(pre.drop_last() =~= deps@.take(i as int));
        match lookup_history(history, d) {
            Some(s) => {
                if s != HistoryStatus::Completed {
                    match policy {
                        DependencyFailurePolicy::Cancel | DependencyFailurePolicy::Fail => {
                            return Err(StoreError::DependencyFailed(d));
                        },
                        DependencyFailurePolicy::Ignore => {},
                    }
                }
            },
            None => {
                need.push(d);
            },
        }
        i = i + 1;
    }
    proof {
        assert(deps@.take(deps@.len() as int) =~= deps@);
        assert forall|k: int, h: int|
            0 <= k < deps@.len() && 0 <= h < history@.len() && #[trigger] history@[h].0 == #[trigger] deps@[k]
                && (forall|j: int| h < j < history@.len() ==> #[trigger] history@[j].0 != deps@[k]) implies (
        history@[h].1 == HistoryStatus::Completed || policy == DependencyFailurePolicy::Ignore) by {
            lemma_dependency_failure_by_history(history@, policy, deps@[k], h);
        }
    }
    if need.len() == 0 {
        return Ok((Vec::new(), TaskStatus::Pending));
    }
    let mut edges: Vec<i64> = Vec::new();
    let mut j: usize = 0;
    while j < need.len()
        invariant
            j <= need@.len(),
            forall|k: int| 0 <= k < deps@.len() ==> !dependency_fails(history@, policy, #[trigger] deps@[k]),
            need@ == unresolved_dependencies(history@, deps@),
            need@.len() > 0,
            forall|k: int| 0 <= k < j ==> active@.contains(#[trigger] need@[k]),
            edges@ == need@.take(j as int),
        decreases need@.len() - j,
    {
        let d = need[j];
        if contains_id(active, d) {
            edges.push(d);
            assert(edges@ =~= need@.take(j as int + 1));
        } else {
            return Err(StoreError::InvalidDependency(d));
        }
        j = j + 1;
    }
    proof {
        assert(need@.take(need@.len() as int) =~= need@);
    }
    Ok((edges, TaskStatus::Blocked))
}

/// The history status of a task is its latest row: with no row for `id`
/// there is none, and otherwise it is the status of the last row naming it.
pub proof fn lemma_history_lookup_latest(rows: Seq<(i64, HistoryStatus)>, id: i64)
    ensures
        (forall|i: int| 0 <= i < rows.len() ==> #[trigger] rows[i].0 != id) ==> history_lookup(rows, id) is None,
        forall|i: int|
            0 <= i < rows.len() && #[trigger] rows[i].0 == id && (forall|j: int|
                i < j < rows.len() ==> #[trigger] rows[j].0 != id) ==> history_lookup(rows, id) == Some(rows[i].1),
    decreases rows.len(),
{
    if rows.len() > 0 {
        let rest = rows.drop_last();
        lemma_history_lookup_latest(rest, id);
        if forall|i: int| 0 <= i < rows.len() ==> #[trigger] rows[i].0 != id {
            assert(rows[rows.len() - 1].0 != id);
            assert forall|i: int| 0 <= i < rest.len() implies #[trigger] rest[i].0 != id by {
                assert(rest[i] == rows[i]);
            }
        }
        assert forall|i: int|
            0 <= i < rows.len() && #[trigger] rows[i].0 == id && (forall|j: int|
                i < j < rows.len() ==> #[trigger] rows[j].0 != id) implies history_lookup(rows, id) == Some(
            rows[i].1,
        ) by {
            if i < rows.len() - 1 {
                assert(rows[rows.len() - 1].0 != id);
                assert(rest[i] == rows[i]);
                assert forall|j: int| i < j < rest.len() implies #[trigger] rest[j].0 != id by {
                    assert(rest[j] == rows[j]);
                }
            }
        }
    }
}

/// A dependency whose latest history row is not `Completed` fails the new
/// task unless the policy ignores failures; a completed one, or one under
/// the ignoring policy, never does; nor does one without history.
pub proof fn lemma_dependency_failure_by_history(
    rows: Seq<(i64, HistoryStatus)>,
    policy: DependencyFailurePolicy,
    id: i64,
    i: int,
)
    requires
        0 <= i < rows.len(),
        rows[i].0 == id,
        forall|j: int| i < j < rows.len() ==> #[trigger] rows[j].0 != id,
    ensures
        dependency_fails(rows, policy, id) <==> (rows[i].1 != HistoryStatus::Completed && policy
            != DependencyFailurePolicy::Ignore),
{
    lemma_history_lookup_latest(rows, id);
}

/// The dependencies that become edges are exactly those without any
/// history row, kept in submission order.
pub proof fn lemma_unresolved_are_without_history(rows: Seq<(i64, HistoryStatus)>, deps: Seq<i64>)
    ensures
        forall|d: i64|
            #[trigger] unresolved_dependencies(rows, deps).contains(d) <==> (deps.contains(d) && forall|i: int|
                0 <= i < rows.len() ==> #[trigger] rows[i].0 != d),
        unresolved_dependencies(rows, deps).len() <= deps.len(),
    decreases deps.len(),
{
    if deps.len() > 0 {
        let rest = deps.drop_last();
        let last = deps.last();
        lemma_unresolved_are_without_history(rows, rest);
        let u = unresolved_dependencies(rows, rest);
        assert(deps =~= rest.push(last));
        lemma_history_lookup_latest(rows, last);
        assert forall|d: i64|
            #[trigger] unresolved_dependencies(rows, deps).contains(d) <==> (deps.contains(d) && forall|i: int|
                0 <= i < rows.len() ==> #[trigger] rows[i].0 != d) by {
            lemma_history_lookup_latest(rows, d);
            if deps.contains(d) {
                let k = choose|k: int| 0 <= k < deps.len() && deps[k] == d;
                if k < rest.len() {
                    assert(rest[k] == d);
                }
            }
            if rest.contains(d) {
                let k = choose|k: int| 0 <= k < rest.len() && rest[k] == d;
                assert(deps[k] == d);
            }
            assert(deps[deps.len() - 1] == last);
            if history_lookup(rows, last) is None {
                let up = u.push(last);
                assert(up[up.len() - 1] == last);
                if up.contains(d) {
                    let k = choose|k: int| 0 <= k < up.len() && up[k] == d;
                    if k < u.len() {
                        assert(u[k] == d);
                    }
                }
                if u.contains(d) {
                    let k = choose|k: int| 0 <= k < u.len() && u[k] == d;
                    assert(up[k] == d);
                }
            }
            if !(forall|i: int| 0 <= i < rows.len() ==> #[trigger] rows[i].0 != d) {
                let i = choose|i: int| 0 <= i < rows.len() && #[trigger] rows[i].0 == d;
                lemma_latest_row_exists(rows, d, i);
            }
        }
    }
}

/// Once some row names `id`, its history status is set.
proof fn lemma_latest_row_exists(rows: Seq<(i64, HistoryStatus)>, id: i64, i: int)
    requires
        0 <= i < rows.len(),
        rows[i].0 == id,
    ensures
        history_lookup(rows, id) is Some,
    decreases rows.len(),
{
    if rows.last().0 != id {
        lemma_latest_row_exists(rows.drop_last(), id, i);
    }
}

/// A task without any history row is never a failed dependency.
pub proof fn lemma_no_history_never_fails(rows: Seq<(i64, HistoryStatus)>, policy: DependencyFailurePolicy, id: i64)
    requires
        forall|i: int| 0 <= i < rows.len() ==> #[trigger] rows[i].0 != id,
    ensures
        !dependency_fails(rows, policy, id),
        history_lookup(rows, id) is None,
{
    lemma_history_lookup_latest(rows, id);
}

// ── Cycle detection ──────────────────────────────────────────────────

/// `p` walks dependency edges `(task, depends_on)` from a task in `seeds` to `target`.
pub open spec fn dependency_path(
    edges: Seq<(i64, i64)>,
    seeds: Seq<i64>,
    p: Seq<i64>,
    target: i64,
) -> bool {
    &&& p.len() > 0
    &&& seeds.contains(p[0])
    &&& p.last() == target
    &&& forall|i: int| 0 <= i < p.len() - 1 ==> edges.contains((p[i], #[trigger] p[i + 1]))
}

/// `target` is one of `seeds` or something they (transitively) depend on.
pub open spec fn upstream_of(edges: Seq<(i64, i64)>, seeds: Seq<i64>, target: i64) -> bool {
    exists|p: Seq<i64>| #[trigger] dependency_path(edges, seeds, p, target)
}

/// A set of tasks closed under "depends on".
pub open spec fn closed_under_edges(edges: Seq<(i64, i64)>, v: Seq<i64>) -> bool {
    forall|a: i64, b: i64| #[trigger] v.contains(a) && #[trigger] edges.contains((a, b)) ==> v.contains(b)
}

proof fn lemma_path_prefix_in_closed(
    edges: Seq<(i64, i64)>,
    seeds: Seq<i64>,
    v: Seq<i64>,
    p: Seq<i64>,
    target: i64,
)
    requires
        dependency_path(edges, seeds, p, target),
        closed_under_edges(edges, v),
        forall|s: i64| seeds.contains(s) ==> v.contains(s),
    ensures
        v.contains(target),
    decreases p.len(),
{
    if p.len() == 1 {
        assert(seeds.contains(p[0]));
    } else {
        let q = p.drop_last();
        assert forall|i: int| 0 <= i < q.len() - 1 implies edges.contains((q[i], #[trigger] q[i + 1])) by {
            assert(q[i] == p[i] && q[i + 1] == p[i + 1]);
            assert(edges.contains((p[i], p[i + 1])));
        }
        assert(dependency_path(edges, seeds, q, q.last()));
        lemma_path_prefix_in_closed(edges, seeds, v, q, q.last());
        let k = p.len() - 2;
        assert(edges.contains((p[k], p[k + 1])));
        assert(q.last() == p[k]);
    }
}

/// The set of target ids of the edges, with the seeds.
pub open spec fn edge_universe(edges: Seq<(i64, i64)>, seeds: Seq<i64>) -> Set<i64> {
    seeds.to_set().union(edges.map_values(|e: (i64, i64)| e.1).to_set())
}

/// All tasks upstream of `seeds` (the seeds included), each once.
pub fn upstream_tasks(edges: &Vec<(i64, i64)>, seeds: &Vec<i64>) -> (v: Vec<i64>)
    ensures
        v@.no_duplicates(),
        forall|x: i64| v@.contains(x) <==> upstream_of(edges@, seeds@, x),
{
    let ghost universe = edge_universe(edges@, seeds@);
    proof {
        seeds@.lemma_cardinality_of_set();
        edges@.map_values(|e: (i64, i64)| e.1).lemma_cardinality_of_set();
        vstd::set_lib::lemma_set_union_finite_iff(seeds@.to_set(), edges@.map_values(|e: (i64, i64)| e.1).to_set());
    }
    let mut visited: Vec<i64> = Vec::new();
    let mut s: usize = 0;
    while s < seeds.len()
        invariant
            s <= seeds@.len(),
            universe == edge_universe(edges@, seeds@),
            visited@.no_duplicates(),
            forall|k: int| 0 <= k < s ==> visited@.contains(#[trigger] seeds@[k]),
            forall|x: i64| #[trigger] visited@.contains(x) ==> seeds@.contains(x),
        decreases seeds@.len() - s,
    {
        let x = seeds[s];
        let ghost pre = visited@;
        if !contains_id(&visited, x) {
            visited.push(x);
            proof {
                assert(visited@.last() == x);
                assert forall|y: i64| #[trigger] visited@.contains(y) implies seeds@.contains(y) by {
                    let w = choose|w: int| 0 <= w < visited@.len() && visited@[w] == y;
                    if w < visited@.len() - 1 {
                        assert(pre[w] == y);
                        assert(pre.contains(y));
                    }
                }
            }
        }
        proof {
            assert forall|k: int| 0 <= k < s + 1 implies visited@.contains(#[trigger] seeds@[k]) by {
                if k < s {
                    assert(pre.contains(seeds@[k]));
                    let w = choose|w: int| 0 <= w < pre.len() && pre[w] == seeds@[k];
                    assert(visited@[w] == seeds@[k]);
                } else if visited@.len() > pre.len() {
                    assert(visited@[visited@.len() - 1] == x);
                }
            }
        }
        s = s + 1;
    }
    proof {
        assert forall|x: i64| #[trigger] visited@.contains(x) implies upstream_of(edges@, seeds@, x) by {
            let p = seq![x];
            assert(dependency_path(edges@, seeds@, p, x));
        }
    }
    let mut idx: usize = 0;
    while idx < visited.len()
        invariant
            universe == edge_universe(edges@, seeds@),
            universe.finite(),
            idx <= visited@.len(),
            visited@.no_duplicates(),
            forall|x: i64| #[trigger] visited@.contains(x) ==> universe.contains(x),
            forall|x: i64| #[trigger] visited@.contains(x) ==> upstream_of(edges@, seeds@, x),
            forall|k: int| 0 <= k < seeds@.len() ==> visited@.contains(#[trigger] seeds@[k]),
            forall|i: int, j: int|
                0 <= i < idx && 0 <= j < edges@.len() && #[trigger] edges@[j].0 == #[trigger] visited@[i]
                    ==> visited@.contains(edges@[j].1),
        decreases universe.len() - idx,
    {
        proof {
            visited@.unique_seq_to_set();
            assert(visited@.to_set().subset_of(universe));
            vstd::set_lib::lemma_len_subset(visited@.to_set(), universe);
        }
        let node = visited[idx];
        let mut j: usize = 0;
        let ghost before = visited@;
        while j < edges.len()
            invariant
                universe == edge_universe(edges@, seeds@),
                universe.finite(),
                idx < visited@.len(),
                visited@[idx as int] == node,
                j <= edges@.len(),
                visited@.no_duplicates(),
                visited@.len() >= before.len(),
                forall|k: int| 0 <= k < before.len() ==> visited@[k] == before[k],
                forall|x: i64| #[trigger] visited@.contains(x) ==> universe.contains(x),
                forall|x: i64| #[trigger] visited@.contains(x) ==> upstream_of(edges@, seeds@, x),
                forall|k: int| 0 <= k < j && edges@[k].0 == node ==> visited@.contains(#[trigger] edges@[k].1),
            decreases edges@.len() - j,
        {
            let (a, b) = edges[j];
            if a == node && !contains_id(&visited, b) {
                let ghost pre = visited@;
                visited.push(b);
                proof {
                    assert forall|x: i64| #[trigger] visited@.contains(x) implies universe.contains(x)
                        && upstream_of(edges@, seeds@, x) by {
                        let w = choose|w: int| 0 <= w < visited@.len() && visited@[w] == x;
                        if w < pre.len() {
                            assert(pre[w] == x);
                            assert(pre.contains(x));
                        } else {
                            assert(x == b);
                            let mapped = edges@.map_values(|e: (i64, i64)| e.1);
                            assert(mapped[j as int] == b);
                            assert(mapped.contains(b));
                            assert(pre.contains(node));
                            let p = choose|p: Seq<i64>| #[trigger] dependency_path(edges@, seeds@, p, node);
                            let q = p.push(b);
                            assert(edges@[j as int] == (node, b));
                            assert(edges@.contains((node, b)));
                            assert forall|i: int| 0 <= i < q.len() - 1 implies edges@.contains((q[i], #[trigger] q[i + 1])) by {
                                if i < p.len() - 1 {
                                    assert(q[i] == p[i] && q[i + 1] == p[i + 1]);
                                } else {
                                    assert(q[i] == node && q[i + 1] == b);
                                }
                            }
                            assert(dependency_path(edges@, seeds@, q, b));
                        }
                    }
                    assert forall|k: int| 0 <= k < j + 1 && edges@[k].0 == node implies visited@.contains(#[trigger] edges@[k].1) by {
                        if k < j {
                            assert(pre.contains(edges@[k].1));
                            let w = choose|w: int| 0 <= w < pre.len() && pre[w] == edges@[k].1;
                            assert(visited@[w] == edges@[k].1);
                        } else {
                            assert(visited@[visited@.len() - 1] == b);
                        }
                    }
                }
            } else {
                proof {
                    if a == node {
                        assert(visited@.contains(b));
                    }
                }
            }
            j = j + 1;
        }
        proof {
            assert forall|i: int, jj: int|
                0 <= i < idx + 1 && 0 <= jj < edges@.len() && #[trigger] edges@[jj].0 == #[trigger] visited@[i]
                    implies visited@.contains(edges@[jj].1) by {
                if i < idx {
                    assert(visited@[i] == before[i]);
                    assert(before.contains(edges@[jj].1));
                    let w = choose|w: int| 0 <= w < before.len() && before[w] == edges@[jj].1;
                    assert(visited@[w] == edges@[jj].1);
                }
            }
            assert forall|k: int| 0 <= k < seeds@.len() implies visited@.contains(#[trigger] seeds@[k]) by {
                assert(before.contains(seeds@[k]));
                let w = choose|w: int| 0 <= w < before.len() && before[w] == seeds@[k];
                assert(visited@[w] == seeds@[k]);
            }
        }
        idx = idx + 1;
    }
    proof {
        assert(closed_under_edges(edges@, visited@)) by {
            assert forall|a: i64, b: i64| #[trigger] visited@.contains(a) && #[trigger] edges@.contains((a, b))
                implies visited@.contains(b) by {
                let i = choose|i: int| 0 <= i < visited@.len() && visited@[i] == a;
                let j = choose|j: int| 0 <= j < edges@.len() && edges@[j] == (a, b);
                assert(edges@[j].0 == visited@[i]);
            }
        }
        assert forall|x: i64| upstream_of(edges@, seeds@, x) implies visited@.contains(x) by {
            let p = choose|p: Seq<i64>| #[trigger] dependency_path(edges@, seeds@, p, x);
            assert forall|s: i64| seeds@.contains(s) implies visited@.contains(s) by {
                let k = choose|k: int| 0 <= k < seeds@.len() && seeds@[k] == s;
            }
            lemma_path_prefix_in_closed(edges@, seeds@, visited@, p, x);
        }
    }
    visited
}

/// Reject a new task whose dependencies lead back to it.
///
/// `edges` are all dependency edges `(task, depends_on)` including the new
/// task's own; the new task is in a cycle exactly when it is upstream of its
/// dependencies.
pub fn detect_cycle(edges: &Vec<(i64, i64)>, new_task_id: i64, deps: &Vec<i64>) -> (r: Result<
    (),
    StoreError,
>)
    ensures
        r is Ok <==> !upstream_of(edges@, deps@, new_task_id),
        r is Err ==> r matches Err(StoreError::CyclicDependency),
{
    if deps.len() == 0 {
        proof {
            assert forall|p: Seq<i64>| !dependency_path(edges@, deps@, p, new_task_id) by {
                if p.len() > 0 {
                    assert(!deps@.contains(p[0]));
                }
            }
        }
        return Ok(());
    }
    let up = upstream_tasks(edges, deps);
    if contains_id(&up, new_task_id) {
        Err(StoreError::CyclicDependency)
    } else {
        Ok(())
    }
}

// ── After completion ─────────────────────────────────────────────────

/// The edges left after removing those whose dependency is in `gone`.
pub open spec fn edges_without_dependency(edges: Seq<(i64, i64)>, gone: Set<i64>) -> Seq<(i64, i64)>
    decreases edges.len(),
{
    if edges.len() == 0 {
        Seq::empty()
    } else if gone.contains(edges.last().1) {
        edges_without_dependency(edges.drop_last(), gone)
    } else {
        edges_without_dependency(edges.drop_last(), gone).push(edges.last())
    }
}

/// A task still has an edge in `edges`.
pub open spec fn has_edge_from(edges: Seq<(i64, i64)>, task: i64) -> bool {
    exists|k: int| 0 <= k < edges.len() && #[trigger] edges[k].0 == task
}

/// A blocked dependent of `completed` whose last dependency was `completed`.
pub open spec fn unblocked_by_completion(
    edges: Seq<(i64, i64)>,
    completed: i64,
    blocked: Seq<i64>,
    x: i64,
) -> bool {
    &&& edges.contains((x, completed))
    &&& blocked.contains(x)
    &&& !has_edge_from(edges_without_dependency(edges, set![completed]), x)
}

fn has_edge_from_exec(edges: &Vec<(i64, i64)>, task: i64) -> (b: bool)
    ensures
        b == has_edge_from(edges@, task),
{
    let mut i: usize = 0;
    while i < edges.len()
        invariant
            i <= edges@.len(),
            forall|k: int| 0 <= k < i ==> #[trigger] edges@[k].0 != task,
        decreases edges@.len() - i,
    {
        if edges[i].0 == task {
            return true;
        }
        i = i + 1;
    }
    false
}

/// After `completed` finishes successfully: its edges are satisfied and
/// removed, and every blocked dependent left without edges is unblocked.
/// Returns the remaining edges and the unblocked tasks (each once).
pub fn resolve_dependents(edges: &Vec<(i64, i64)>, completed: i64, blocked: &Vec<i64>) -> (r: (Vec<(i64, i64)>, Vec<i64>))
    ensures
        r.0@ == edges_without_dependency(edges@, set![completed]),
        r.1@.no_duplicates(),
        forall|x: i64| r.1@.contains(x) <==> unblocked_by_completion(edges@, completed, blocked@, x),
{
    let ghost gone = set![completed];
    let mut remaining: Vec<(i64, i64)> = Vec::new();
    let mut dependents: Vec<i64> = Vec::new();
    let mut i: usize = 0;
    while i < edges.len()
        invariant
            i <= edges@.len(),
            gone == set![completed],
            remaining@ == edges_without_dependency(edges@.take(i as int), gone),
            forall|x: i64| dependents@.contains(x) <==> edges@.take(i as int).contains((x, completed)),
        decreases edges@.len() - i,
    {
        let e = edges[i];
        let ghost pre = edges@.take(i as int);
        let ghost post = edges@.take(i as int + 1);
        let ghost old_deps = dependents@;
        proof {
            assert(post.drop_last() =~= pre);
            assert(post =~= pre.push(e));
        }
        if e.1 == completed {
            dependents.push(e.0);
        } else {
            remaining.push(e);
        }
        proof {
            assert forall|x: i64| dependents@.contains(x) <==> post.contains((x, completed)) by {
                if post.contains((x, completed)) {
                    let w = choose|w: int| 0 <= w < post.len() && #[trigger] post[w] == (x, completed);
                    if w < pre.len() {
                        assert(pre[w] == (x, completed));
                        assert(pre.contains((x, completed)));
                        assert(old_deps.contains(x));
                        let v = choose|v: int| 0 <= v < old_deps.len() && old_deps[v] == x;
                        assert(dependents@[v] == x);
                    } else {
                        assert(e == (x, completed));
                        assert(dependents@[dependents@.len() - 1] == x);
                    }
                }
                if dependents@.contains(x) {
                    let w = choose|w: int| 0 <= w < dependents@.len() && dependents@[w] == x;
                    if w < old_deps.len() {
                        assert(old_deps[w] == x);
                        assert(old_deps.contains(x));
                        assert(pre.contains((x, completed)));
                        let v = choose|v: int| 0 <= v < pre.len() && pre[v] == (x, completed);
                        assert(post[v] == (x, completed));
                    } else {
                        assert(post[i as int] == (x, completed));
                    }
                }
            }
        }
        i = i + 1;
    }
    proof {
        assert(edges@.take(edges@.len() as int) =~= edges@);
    }
    let mut unblocked: Vec<i64> = Vec::new();
    let mut j: usize = 0;
    while j < dependents.len()
        invariant
            j <= dependents@.len(),
            gone == set![completed],
            remaining@ == edges_without_dependency(edges@, gone),
            forall|x: i64| dependents@.contains(x) <==> edges@.contains((x, completed)),
            unblocked@.no_duplicates(),
            forall|x: i64| unblocked@.contains(x) ==> unblocked_by_completion(edges@, completed, blocked@, x),
            forall|k: int|
                0 <= k < j && unblocked_by_completion(edges@, completed, blocked@, #[trigger] dependents@[k])
                    ==> unblocked@.contains(dependents@[k]),
        decreases dependents@.len() - j,
    {
        let x = dependents[j];
        proof {
            assert(dependents@.contains(x));
        }
        let ghost pre = unblocked@;
        if contains_id(blocked, x) && !has_edge_from_exec(&remaining, x) && !contains_id(&unblocked, x) {
            unblocked.push(x);
            proof {
                assert(unblocked_by_completion(edges@, completed, blocked@, x));
                assert forall|y: i64| unblocked@.contains(y) implies unblocked_by_completion(edges@, completed, blocked@, y) by {
                    let w = choose|w: int| 0 <= w < unblocked@.len() && unblocked@[w] == y;
                    if w < pre.len() {
                        assert(pre[w] == y);
                        assert(pre.contains(y));
                    }
                }
            }
        }
        proof {
            assert forall|k: int|
                0 <= k < j + 1 && unblocked_by_completion(edges@, completed, blocked@, #[trigger] dependents@[k])
                    implies unblocked@.contains(dependents@[k]) by {
                if k < j {
                    assert(pre.contains(dependents@[k]));
                    let w = choose|w: int| 0 <= w < pre.len() && pre[w] == dependents@[k];
                    assert(unblocked@[w] == dependents@[k]);
                } else if unblocked@.len() > pre.len() {
                    assert(unblocked@[unblocked@.len() - 1] == x);
                } else {
                    assert(pre.contains(x));
                }
            }
        }
        j = j + 1;
    }
    proof {
        assert forall|x: i64| unblocked_by_completion(edges@, completed, blocked@, x) implies unblocked@.contains(x) by {
            assert(dependents@.contains(x));
            let k = choose|k: int| 0 <= k < dependents@.len() && dependents@[k] == x;
        }
    }
    (remaining, unblocked)
}

/// A blocked dependent of one of the `completed` tasks that is left without
/// edges once all of their edges are removed.
pub open spec fn unblocked_by_completions(
    edges: Seq<(i64, i64)>,
    completed: Seq<i64>,
    blocked: Seq<i64>,
    x: i64,
) -> bool {
    &&& exists|k: int| 0 <= k < edges.len() && #[trigger] edges[k].0 == x && completed.contains(edges[k].1)
    &&& blocked.contains(x)
    &&& !has_edge_from(edges_without_dependency(edges, completed.to_set()), x)
}

/// After several tasks complete together: the edges to any of them are
/// satisfied and removed, and every blocked dependent left without edges is
/// unblocked. Returns the remaining edges and the unblocked tasks (each once).
pub fn resolve_dependents_batch(edges: &Vec<(i64, i64)>, completed: &Vec<i64>, blocked: &Vec<i64>) -> (r: (
    Vec<(i64, i64)>,
    Vec<i64>,
))
    ensures
        r.0@ == edges_without_dependency(edges@, completed@.to_set()),
        r.1@.no_duplicates(),
        forall|x: i64| r.1@.contains(x) <==> unblocked_by_completions(edges@, completed@, blocked@, x),
{
    let ghost gone = completed@.to_set();
    let mut remaining: Vec<(i64, i64)> = Vec::new();
    let mut i: usize = 0;
    while i < edges.len()
        invariant
            i <= edges@.len(),
            gone == completed@.to_set(),
            remaining@ == edges_without_dependency(edges@.take(i as int), gone),
        decreases edges@.len() - i,
    {
        let e = edges[i];
        proof {
            assert(edges@.take(i as int + 1).drop_last() =~= edges@.take(i as int));
            assert(edges@.take(i as int + 1).last() == e);
        }
        if !contains_id(completed, e.1) {
            remaining.push(e);
        }
        i = i + 1;
    }
    proof {
        assert(edges@.take(edges@.len() as int) =~= edges@);
    }
    let mut unblocked: Vec<i64> = Vec::new();
    let mut m: usize = 0;
    while m < edges.len()
        invariant
            m <= edges@.len(),
            remaining@ == edges_without_dependency(edges@, completed@.to_set()),
            unblocked@.no_duplicates(),
            forall|x: i64| unblocked@.contains(x) ==> unblocked_by_completions(edges@, completed@, blocked@, x),
            forall|x: i64|
                #[trigger] unblocked_by_completions(edges@, completed@, blocked@, x) && (exists|q: int|
                    0 <= q < m && #[trigger] edges@[q].0 == x && completed@.contains(edges@[q].1))
                    ==> unblocked@.contains(x),
        decreases edges@.len() - m,
    {
        let e = edges[m];
        let x = e.0;
        let ghost pre = unblocked@;
        if contains_id(completed, e.1) && contains_id(blocked, x) && !has_edge_from_exec(&remaining, x)
            && !contains_id(&unblocked, x) {
            unblocked.push(x);
            proof {
                assert(edges@[m as int].0 == x && completed@.contains(edges@[m as int].1));
                assert(unblocked_by_completions(edges@, completed@, blocked@, x));
                assert forall|y: i64| unblocked@.contains(y) implies unblocked_by_completions(
                    edges@,
                    completed@,
                    blocked@,
                    y,
                ) by {
                    let w = choose|w: int| 0 <= w < unblocked@.len() && unblocked@[w] == y;
                    if w < pre.len() {
                        assert(pre[w] == y);
                        assert(pre.contains(y));
                    }
                }
            }
        }
        proof {
            assert forall|y: i64|
                #[trigger] unblocked_by_completions(edges@, completed@, blocked@, y) && (exists|q: int|
                    0 <= q < m + 1 && #[trigger] edges@[q].0 == y && completed@.contains(edges@[q].1))
                    implies unblocked@.contains(y) by {
                let q = choose|q: int|
                    0 <= q < m + 1 && #[trigger] edges@[q].0 == y && completed@.contains(edges@[q].1);
                if q < m {
                    assert(pre.contains(y));
                    let w = choose|w: int| 0 <= w < pre.len() && pre[w] == y;
                    assert(unblocked@[w] == y);
                } else if unblocked@.len() > pre.len() {
                    assert(unblocked@[unblocked@.len() - 1] == y);
                } else {
                    assert(pre.contains(y));
                    let w = choose|w: int| 0 <= w < pre.len() && pre[w] == y;
                    assert(unblocked@[w] == y);
                }
            }
        }
        m = m + 1;
    }
    (remaining, unblocked)
}

/// The edges left after resolving each task of `completed` in turn, one
/// completion at a time.
pub open spec fn edges_after_each(edges: Seq<(i64, i64)>, completed: Seq<i64>) -> Seq<(i64, i64)>
    decreases completed.len(),
{
    if completed.len() == 0 {
        edges
    } else {
        edges_without_dependency(edges_after_each(edges, completed.drop_last()), set![completed.last()])
    }
}

/// `x` is unblocked by one of the steps when each task of `completed` is
/// resolved in turn, each step seeing the edges the earlier steps left.
pub open spec fn unblocked_by_each(edges: Seq<(i64, i64)>, completed: Seq<i64>, blocked: Seq<i64>, x: i64) -> bool
    decreases completed.len(),
{
    if completed.len() == 0 {
        false
    } else {
        ||| unblocked_by_each(edges, completed.drop_last(), blocked, x)
        ||| unblocked_by_completion(
            edges_after_each(edges, completed.drop_last()),
            completed.last(),
            blocked,
            x,
        )
    }
}

/// An edge survives removal exactly when it was there and its dependency is
/// not among the removed.
proof fn lemma_without_contains(edges: Seq<(i64, i64)>, gone: Set<i64>)
    ensures
        forall|e: (i64, i64)|
            #![trigger edges_without_dependency(edges, gone).contains(e)]
            #![trigger edges.contains(e)]
            edges_without_dependency(edges, gone).contains(e) <==> (edges.contains(e) && !gone.contains(e.1)),
    decreases edges.len(),
{
    if edges.len() > 0 {
        let rest = edges.drop_last();
        let last = edges.last();
        lemma_without_contains(rest, gone);
        let w = edges_without_dependency(rest, gone);
        assert(edges =~= rest.push(last));
        assert forall|e: (i64, i64)|
            edges_without_dependency(edges, gone).contains(e) <==> (edges.contains(e) && !gone.contains(e.1)) by {
            if edges.contains(e) {
                let k = choose|k: int| 0 <= k < edges.len() && edges[k] == e;
                if k < rest.len() {
                    assert(rest[k] == e);
                    assert(rest.contains(e));
                }
            }
            if rest.contains(e) {
                let k = choose|k: int| 0 <= k < rest.len() && rest[k] == e;
                assert(edges[k] == e);
            }
            assert(edges[edges.len() - 1] == last);
            if !gone.contains(last.1) {
                let wl = w.push(last);
                assert(wl[wl.len() - 1] == last);
                if wl.contains(e) {
                    let k = choose|k: int| 0 <= k < wl.len() && wl[k] == e;
                    if k < w.len() {
                        assert(w[k] == e);
                        assert(w.contains(e));
                    }
                }
                if w.contains(e) {
                    let k = choose|k: int| 0 <= k < w.len() && w[k] == e;
                    assert(wl[k] == e);
                }
            }
        }
    }
}

/// A task keeps an edge after removal exactly when one of its edges points
/// to a dependency that was not removed.
proof fn lemma_has_edge_without(edges: Seq<(i64, i64)>, gone: Set<i64>, x: i64)
    ensures
        has_edge_from(edges_without_dependency(edges, gone), x) <==> exists|k: int|
            0 <= k < edges.len() && #[trigger] edges[k].0 == x && !gone.contains(edges[k].1),
{
    let w = edges_without_dependency(edges, gone);
    lemma_without_contains(edges, gone);
    if has_edge_from(w, x) {
        let j = choose|j: int| 0 <= j < w.len() && #[trigger] w[j].0 == x;
        assert(w.contains(w[j]));
        let k = choose|k: int| 0 <= k < edges.len() && edges[k] == w[j];
        assert(edges[k].0 == x && !gone.contains(edges[k].1));
    }
    if exists|k: int| 0 <= k < edges.len() && #[trigger] edges[k].0 == x && !gone.contains(edges[k].1) {
        let k = choose|k: int| 0 <= k < edges.len() && #[trigger] edges[k].0 == x && !gone.contains(edges[k].1);
        assert(edges.contains(edges[k]));
        assert(w.contains(edges[k]));
        let j = choose|j: int| 0 <= j < w.len() && w[j] == edges[k];
        assert(w[j].0 == x);
    }
}

/// Removing the edges to one set of dependencies and then to another is
/// removing the edges to both at once.
proof fn lemma_without_twice(edges: Seq<(i64, i64)>, a: Set<i64>, b: Set<i64>)
    ensures
        edges_without_dependency(edges_without_dependency(edges, a), b) == edges_without_dependency(edges, a.union(b)),
    decreases edges.len(),
{
    if edges.len() > 0 {
        let rest = edges.drop_last();
        let last = edges.last();
        lemma_without_twice(rest, a, b);
        if !a.contains(last.1) {
            let w = edges_without_dependency(rest, a);
            assert(w.push(last).drop_last() =~= w);
            assert(w.push(last).last() == last);
        }
    }
}

/// Resolving a batch of completions together leaves the same edges, and
/// unblocks the same tasks, as resolving the completions one at a time in
/// the order given.
pub proof fn lemma_batch_resolution_is_sequential(edges: Seq<(i64, i64)>, completed: Seq<i64>, blocked: Seq<i64>)
    ensures
        edges_after_each(edges, completed) == edges_without_dependency(edges, completed.to_set()),
        forall|x: i64|
            unblocked_by_each(edges, completed, blocked, x) <==> unblocked_by_completions(
                edges,
                completed,
                blocked,
                x,
            ),
    decreases completed.len(),
{
    if completed.len() == 0 {
        assert(completed.to_set() =~= Set::<i64>::empty());
        assert(edges_without_dependency(edges, Set::<i64>::empty()) == edges) by {
            lemma_without_contains(edges, Set::<i64>::empty());
            lemma_without_identity(edges);
        }
        assert forall|x: i64| !unblocked_by_completions(edges, completed, blocked, x) by {}
    } else {
        let prev = completed.drop_last();
        let c = completed.last();
        lemma_batch_resolution_is_sequential(edges, prev, blocked);
        let sp = prev.to_set();
        let s = completed.to_set();
        assert(completed =~= prev.push(c));
        assert forall|d: i64| completed.contains(d) <==> (prev.contains(d) || d == c) by {
            if completed.contains(d) {
                let k = choose|k: int| 0 <= k < completed.len() && completed[k] == d;
                if k < prev.len() {
                    assert(prev[k] == d);
                }
            }
            if prev.contains(d) {
                let k = choose|k: int| 0 <= k < prev.len() && prev[k] == d;
                assert(completed[k] == d);
            }
            assert(completed[completed.len() - 1] == c);
        }
        assert(sp.union(set![c]) =~= s);
        lemma_without_twice(edges, sp, set![c]);
        let e1 = edges_without_dependency(edges, sp);
        let r = edges_without_dependency(edges, s);
        assert(edges_after_each(edges, completed) == r);
        lemma_without_contains(edges, sp);
        lemma_without_contains(e1, set![c]);
        assert forall|x: i64|
            unblocked_by_each(edges, completed, blocked, x) <==> unblocked_by_completions(
                edges,
                completed,
                blocked,
                x,
            ) by {
            lemma_has_edge_without(edges, sp, x);
            lemma_has_edge_without(edges, s, x);
            lemma_has_edge_without(e1, set![c], x);
            if unblocked_by_completions(edges, prev, blocked, x) {
                let k = choose|k: int| 0 <= k < edges.len() && #[trigger] edges[k].0 == x && prev.contains(edges[k].1);
                assert(completed.contains(edges[k].1));
            }
            if unblocked_by_completion(e1, c, blocked, x) {
                assert(edges.contains((x, c)));
                let k = choose|k: int| 0 <= k < edges.len() && edges[k] == (x, c);
                assert(edges[k].0 == x && completed.contains(edges[k].1));
            }
            if unblocked_by_completions(edges, completed, blocked, x) && !e1.contains((x, c)) {
                let k = choose|k: int| 0 <= k < edges.len() && #[trigger] edges[k].0 == x && completed.contains(edges[k].1);
                if !prev.contains(edges[k].1) {
                    assert(edges[k] == (x, c));
                    assert(edges.contains(edges[k]));
                }
                assert(edges[k].0 == x && prev.contains(edges[k].1));
                if has_edge_from(e1, x) {
                    let j = choose|j: int| 0 <= j < edges.len() && #[trigger] edges[j].0 == x && !sp.contains(edges[j].1);
                    assert(edges[j] == (x, c));
                    assert(edges.contains(edges[j]));
                }
            }
        }
    }
}

/// Removing the edges to no dependency leaves the edges as they were.
proof fn lemma_without_identity(edges: Seq<(i64, i64)>)
    ensures
        edges_without_dependency(edges, Set::<i64>::empty()) == edges,
    decreases edges.len(),
{
    if edges.len() > 0 {
        lemma_without_identity(edges.drop_last());
        assert(edges.drop_last().push(edges.last()) =~= edges);
    }
}

// ── After failure ────────────────────────────────────────────────────

/// An active task that may depend on a failed one.
#[derive(Debug, Clone, Copy, PartialEq, Eq, Structural)]
pub struct DependentTask {
    pub id: i64,
    pub status: TaskStatus,
    pub policy: DependencyFailurePolicy,
}

/// An active task whose policy passes a dependency failure on (cancel or fail).
pub open spec fn cascades(tasks: Seq<DependentTask>, id: i64) -> bool {
    exists|k: int| 0 <= k < tasks.len() && #[trigger] tasks[k].id == id && tasks[k].policy != DependencyFailurePolicy::Ignore
}

/// An active, blocked task that ignores dependency failures.
pub open spec fn ignores_while_blocked(tasks: Seq<DependentTask>, id: i64) -> bool {
    exists|k: int|
        0 <= k < tasks.len() && #[trigger] tasks[k].id == id && tasks[k].policy == DependencyFailurePolicy::Ignore
            && tasks[k].status == TaskStatus::Blocked
}

/// The edges along which a failure spreads: from a dependency to a dependent
/// that passes failures on.
pub open spec fn cascade_edges(edges: Seq<(i64, i64)>, tasks: Seq<DependentTask>) -> Seq<(i64, i64)>
    decreases edges.len(),
{
    if edges.len() == 0 {
        Seq::empty()
    } else if cascades(tasks, edges.last().0) {
        cascade_edges(edges.drop_last(), tasks).push((edges.last().1, edges.last().0))
    } else {
        cascade_edges(edges.drop_last(), tasks)
    }
}

/// Tasks reached by the failure of `root` (root included): the root, and
/// every dependent that passes failures on of a task reached.
pub open spec fn failure_reaches(edges: Seq<(i64, i64)>, tasks: Seq<DependentTask>, root: i64, x: i64) -> bool {
    upstream_of(cascade_edges(edges, tasks), seq![root], x)
}

/// Tasks failed as a consequence of `root` (`DependencyFailed`).
pub open spec fn dependency_failed(edges: Seq<(i64, i64)>, tasks: Seq<DependentTask>, root: i64, x: i64) -> bool {
    x != root && failure_reaches(edges, tasks, root, x)
}

/// Edges that survive a failure cascade: neither the dependency was reached
/// nor the dependent failed.
pub open spec fn surviving_edges(edges: Seq<(i64, i64)>, tasks: Seq<DependentTask>, root: i64) -> Seq<(i64, i64)> {
    surviving_with(edges, edges, tasks, root)
}

/// An ignoring, blocked dependent of a reached task whose every edge is gone.
pub open spec fn unblocked_by_failure(edges: Seq<(i64, i64)>, tasks: Seq<DependentTask>, root: i64, x: i64) -> bool {
    &&& ignores_while_blocked(tasks, x)
    &&& exists|k: int| 0 <= k < edges.len() && #[trigger] edges[k].0 == x && failure_reaches(edges, tasks, root, edges[k].1)
    &&& !has_edge_from(surviving_edges(edges, tasks, root), x)
}

fn cascades_exec(tasks: &Vec<DependentTask>, id: i64) -> (b: bool)
    ensures
        b == cascades(tasks@, id),
{
    let mut i: usize = 0;
    while i < tasks.len()
        invariant
            i <= tasks@.len(),
            forall|k: int| 0 <= k < i ==> !(#[trigger] tasks@[k].id == id && tasks@[k].policy != DependencyFailurePolicy::Ignore),
        decreases tasks@.len() - i,
    {
        let t = tasks[i];
        match t.policy {
            DependencyFailurePolicy::Ignore => {},
            _ => {
                if t.id == id {
                    return true;
                }
            },
        }
        i = i + 1;
    }
    false
}

fn ignores_while_blocked_exec(tasks: &Vec<DependentTask>, id: i64) -> (b: bool)
    ensures
        b == ignores_while_blocked(tasks@, id),
{
    let mut i: usize = 0;
    while i < tasks.len()
        invariant
            i <= tasks@.len(),
            forall|k: int|
                0 <= k < i ==> !(#[trigger] tasks@[k].id == id && tasks@[k].policy == DependencyFailurePolicy::Ignore
                    && tasks@[k].status == TaskStatus::Blocked),
        decreases tasks@.len() - i,
    {
        let t = tasks[i];
        let ignore = match t.policy {
            DependencyFailurePolicy::Ignore => true,
            _ => false,
        };
        let blocked = match t.status {
            TaskStatus::Blocked => true,
            _ => false,
        };
        if t.id == id && ignore && blocked {
            return true;
        }
        i = i + 1;
    }
    false
}

/// The outcome of a dependency failure.
#[derive(Debug, Clone)]
pub struct FailureCascade {
    /// Dependents moved to history as `DependencyFailed`, transitively.
    pub failed: Vec<i64>,
    /// Ignoring dependents unblocked because no dependency remains.
    pub unblocked: Vec<i64>,
    /// The dependency edges left.
    pub remaining_edges: Vec<(i64, i64)>,
}

/// Propagate the failure of `root` to its dependents. Dependents with the
/// `Cancel` or `Fail` policy fail too, and so on transitively; their own
/// edges are removed. Edges to failed tasks are removed; a blocked dependent
/// with the `Ignore` policy is unblocked once none of its edges remains.
pub fn dependency_failure_cascade(edges: &Vec<(i64, i64)>, tasks: &Vec<DependentTask>, root: i64) -> (r: FailureCascade)
    ensures
        r.failed@.no_duplicates(),
        forall|x: i64| r.failed@.contains(x) <==> dependency_failed(edges@, tasks@, root, x),
        r.unblocked@.no_duplicates(),
        forall|x: i64| r.unblocked@.contains(x) <==> unblocked_by_failure(edges@, tasks@, root, x),
        r.remaining_edges@ == surviving_edges(edges@, tasks@, root),
{
    let ghost ce = cascade_edges(edges@, tasks@);
    let mut rev: Vec<(i64, i64)> = Vec::new();
    let mut i: usize = 0;
    while i < edges.len()
        invariant
            i <= edges@.len(),
            ce == cascade_edges(edges@, tasks@),
            rev@ == cascade_edges(edges@.take(i as int), tasks@),
        decreases edges@.len() - i,
    {
        let e = edges[i];
        proof {
            assert(edges@.take(i as int + 1).drop_last() =~= edges@.take(i as int));
        }
        if cascades_exec(tasks, e.0) {
            rev.push((e.1, e.0));
        }
        i = i + 1;
    }
    proof {
        assert(edges@.take(edges@.len() as int) =~= edges@);
    }
    let mut seeds: Vec<i64> = Vec::new();
    seeds.push(root);
    proof {
        assert(seeds@ =~= seq![root]);
    }
    let reached = upstream_tasks(&rev, &seeds);
    // The failed tasks: everything reached except the root.
    let mut failed: Vec<i64> = Vec::new();
    let mut k: usize = 0;
    while k < reached.len()
        invariant
            k <= reached@.len(),
            reached@.no_duplicates(),
            failed@.no_duplicates(),
            forall|x: i64| #[trigger] failed@.contains(x) <==> (x != root && reached@.take(k as int).contains(x)),
        decreases reached@.len() - k,
    {
        let x = reached[k];
        let ghost pre = failed@;
        let ghost tk = reached@.take(k as int);
        let ghost tk1 = reached@.take(k as int + 1);
        proof {
            assert(tk1 =~= tk.push(x));
            assert(!tk.contains(x)) by {
                if tk.contains(x) {
                    let w = choose|w: int| 0 <= w < tk.len() && tk[w] == x;
                    assert(reached@[w] == reached@[k as int]);
                }
            }
        }
        if x != root {
            failed.push(x);
            proof {
                assert forall|a: int, b: int| 0 <= a < b < failed@.len() implies failed@[a] != failed@[b] by {
                    if b == failed@.len() - 1 {
                        assert(pre.contains(failed@[a]));
                        assert(tk.contains(failed@[a]));
                    } else {
                        assert(pre[a] != pre[b]);
                    }
                }
            }
        }
        proof {
            assert forall|y: i64| #[trigger] failed@.contains(y) <==> (y != root && tk1.contains(y)) by {
                if failed@.contains(y) {
                    let w = choose|w: int| 0 <= w < failed@.len() && failed@[w] == y;
                    if w < pre.len() {
                        assert(pre[w] == y);
                        assert(pre.contains(y));
                        let v = choose|v: int| 0 <= v < tk.len() && tk[v] == y;
                        assert(tk1[v] == y);
                    } else {
                        assert(tk1[k as int] == y);
                    }
                }
                if y != root && tk1.contains(y) {
                    let w = choose|w: int| 0 <= w < tk1.len() && tk1[w] == y;
                    if w < k {
                        assert(tk[w] == y);
                        assert(pre.contains(y));
                        let v = choose|v: int| 0 <= v < pre.len() && pre[v] == y;
                        assert(failed@[v] == y);
                    } else {
                        assert(failed@[failed@.len() - 1] == y);
                    }
                }
            }
        }
        k = k + 1;
    }
    proof {
        assert(reached@.take(reached@.len() as int) =~= reached@);
    }
    // Surviving edges.
    let mut remaining: Vec<(i64, i64)> = Vec::new();
    let mut j: usize = 0;
    while j < edges.len()
        invariant
            j <= edges@.len(),
            ce == cascade_edges(edges@, tasks@),
            rev@ == ce,
            forall|x: i64| reached@.contains(x) <==> failure_reaches(edges@, tasks@, root, x),
            forall|x: i64| #[trigger] failed@.contains(x) <==> dependency_failed(edges@, tasks@, root, x),
            remaining@ == surviving_prefix(edges@, tasks@, root, j as int),
        decreases edges@.len() - j,
    {
        let e = edges[j];
        let gone = contains_id(&reached, e.1) || contains_id(&failed, e.0);
        if !gone {
            remaining.push(e);
        }
        proof {
            lemma_surviving_prefix_step(edges@, tasks@, root, j as int);
        }
        j = j + 1;
    }
    proof {
        lemma_surviving_prefix_full(edges@, tasks@, root);
    }
    // Unblocked ignoring dependents.
    let mut unblocked: Vec<i64> = Vec::new();
    let mut m: usize = 0;
    while m < edges.len()
        invariant
            m <= edges@.len(),
            forall|x: i64| reached@.contains(x) <==> failure_reaches(edges@, tasks@, root, x),
            remaining@ == surviving_edges(edges@, tasks@, root),
            unblocked@.no_duplicates(),
            forall|x: i64| unblocked@.contains(x) ==> unblocked_by_failure(edges@, tasks@, root, x),
            forall|x: i64|
                #[trigger] unblocked_by_failure(edges@, tasks@, root, x) && (exists|q: int|
                    0 <= q < m && #[trigger] edges@[q].0 == x && failure_reaches(edges@, tasks@, root, edges@[q].1))
                    ==> unblocked@.contains(x),
        decreases edges@.len() - m,
    {
        let e = edges[m];
        let x = e.0;
        let ghost pre = unblocked@;
        if contains_id(&reached, e.1) && ignores_while_blocked_exec(tasks, x) && !has_edge_from_exec(&remaining, x)
            && !contains_id(&unblocked, x) {
            unblocked.push(x);
            proof {
                assert(unblocked_by_failure(edges@, tasks@, root, x));
                assert forall|y: i64| unblocked@.contains(y) implies unblocked_by_failure(edges@, tasks@, root, y) by {
                    let w = choose|w: int| 0 <= w < unblocked@.len() && unblocked@[w] == y;
                    if w < pre.len() {
                        assert(pre[w] == y);
                        assert(pre.contains(y));
                    }
                }
            }
        }
        proof {
            assert forall|y: i64|
                #[trigger] unblocked_by_failure(edges@, tasks@, root, y) && (exists|q: int|
                    0 <= q < m + 1 && #[trigger] edges@[q].0 == y && failure_reaches(edges@, tasks@, root, edges@[q].1))
                    implies unblocked@.contains(y) by {
                let q = choose|q: int|
                    0 <= q < m + 1 && #[trigger] edges@[q].0 == y && failure_reaches(edges@, tasks@, root, edges@[q].1);
                if q < m {
                    assert(pre.contains(y));
                    let w = choose|w: int| 0 <= w < pre.len() && pre[w] == y;
                    assert(unblocked@[w] == y);
                } else if unblocked@.len() > pre.len() {
                    assert(unblocked@[unblocked@.len() - 1] == y);
                } else {
                    assert(pre.contains(y));
                    let w = choose|w: int| 0 <= w < pre.len() && pre[w] == y;
                    assert(unblocked@[w] == y);
                }
            }
        }
        m = m + 1;
    }
    FailureCascade { failed, unblocked, remaining_edges: remaining }
}

/// The dependency through which a failure reached `x`: the first edge of
/// `x` (in order) whose dependency is the root or one of the failed tasks.
pub fn failure_cause(edges: &Vec<(i64, i64)>, failed: &Vec<i64>, root: i64, x: i64) -> (r: Option<i64>)
    ensures
        match r {
            Some(d) => edges@.contains((x, d)) && (d == root || failed@.contains(d)),
            None => forall|k: int|
                0 <= k < edges@.len() ==> !(#[trigger] edges@[k].0 == x && (edges@[k].1 == root
                    || failed@.contains(edges@[k].1))),
        },
{
    let mut k: usize = 0;
    while k < edges.len()
        invariant
            k <= edges@.len(),
            forall|j: int|
                0 <= j < k ==> !(#[trigger] edges@[j].0 == x && (edges@[j].1 == root || failed@.contains(
                    edges@[j].1,
                ))),
        decreases edges@.len() - k,
    {
        let (t, d) = edges[k];
        if t == x && (d == root || contains_id(failed, d)) {
            proof {
                assert(edges@[k as int] == (x, d));
            }
            return Some(d);
        }
        k = k + 1;
    }
    None
}

/// The surviving edges among the first `n` edges.
pub open spec fn surviving_prefix(edges: Seq<(i64, i64)>, tasks: Seq<DependentTask>, root: i64, n: int) -> Seq<(i64, i64)>
    decreases n,
{
    if n <= 0 {
        Seq::empty()
    } else {
        let rest = surviving_prefix(edges, tasks, root, n - 1);
        let e = edges[n - 1];
        if failure_reaches(edges, tasks, root, e.1) || dependency_failed(edges, tasks, root, e.0) {
            rest
        } else {
            rest.push(e)
        }
    }
}

proof fn lemma_surviving_prefix_step(edges: Seq<(i64, i64)>, tasks: Seq<DependentTask>, root: i64, n: int)
    requires
        0 <= n < edges.len(),
    ensures
        surviving_prefix(edges, tasks, root, n + 1) == if failure_reaches(edges, tasks, root, edges[n].1)
            || dependency_failed(edges, tasks, root, edges[n].0) {
            surviving_prefix(edges, tasks, root, n)
        } else {
            surviving_prefix(edges, tasks, root, n).push(edges[n])
        },
{
}

proof fn lemma_surviving_prefix_full(edges: Seq<(i64, i64)>, tasks: Seq<DependentTask>, root: i64)
    ensures
        surviving_prefix(edges, tasks, root, edges.len() as int) == surviving_edges(edges, tasks, root),
{
    assert(edges.take(edges.len() as int) =~= edges);
    lemma_surviving_general(edges, edges, tasks, root, edges.len() as int);
}

proof fn lemma_surviving_general(
    all: Seq<(i64, i64)>,
    edges: Seq<(i64, i64)>,
    tasks: Seq<DependentTask>,
    root: i64,
    n: int,
)
    requires
        0 <= n <= all.len(),
        edges == all.take(n),
    ensures
        surviving_prefix(all, tasks, root, n) == surviving_with(all, edges, tasks, root),
    decreases n,
{
    if n > 0 {
        let d = all.take(n - 1);
        assert(edges.drop_last() =~= d);
        lemma_surviving_general(all, d, tasks, root, n - 1);
    }
}

/// `surviving_edges` with the reach computed over `all` while walking `edges`.
pub open spec fn surviving_with(all: Seq<(i64, i64)>, edges: Seq<(i64, i64)>, tasks: Seq<DependentTask>, root: i64) -> Seq<
    (i64, i64),
>
    decreases edges.len(),
{
    if edges.len() == 0 {
        Seq::empty()
    } else {
        let rest = surviving_with(all, edges.drop_last(), tasks, root);
        let e = edges.last();
        if failure_reaches(all, tasks, root, e.1) || dependency_failed(all, tasks, root, e.0) {
            rest
        } else {
            rest.push(e)
        }
    }
}

} // verus!
