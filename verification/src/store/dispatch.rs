//! Dispatch: which pending tasks are eligible now, in which order they are
//! claimed, and the expiry set on a first attempt.

use vstd::prelude::*;
use crate::priority::Priority;
use crate::task::status::{TaskStatus, TtlFrom};

verus! {

/// The fields of an active task that dispatch looks at.
#[derive(Debug, Clone, Copy, PartialEq, Eq, Structural)]
pub struct DispatchCandidate {
    pub id: i64,
    pub priority: Priority,
    pub status: TaskStatus,
    pub run_after_ms: Option<i64>,
    pub expires_at_ms: Option<i64>,
}

/// Eligible for dispatch at `now_ms`: pending, its delay elapsed, and (when
/// `check_expiry`) not yet expired.
pub open spec fn dispatchable(c: DispatchCandidate, now_ms: i64, check_expiry: bool) -> bool {
    &&& c.status == TaskStatus::Pending
    &&& match c.run_after_ms {
        Some(r) => r <= now_ms,
        None => true,
    }
    &&& check_expiry ==> match c.expires_at_ms {
        Some(e) => e > now_ms,
        None => true,
    }
}

/// Dispatch order: lower priority value first, then lower id.
pub open spec fn dispatch_before(a: DispatchCandidate, b: DispatchCandidate) -> bool {
    a.priority.0 < b.priority.0 || (a.priority.0 == b.priority.0 && a.id < b.id)
}

pub fn is_dispatchable(c: &DispatchCandidate, now_ms: i64, check_expiry: bool) -> (b: bool)
    ensures
        b == dispatchable(*c, now_ms, check_expiry),
{
    let pending = match c.status {
        TaskStatus::Pending => true,
        _ => false,
    };
    let ready = match c.run_after_ms {
        Some(r) => r <= now_ms,
        None => true,
    };
    let alive = if check_expiry {
        match c.expires_at_ms {
            Some(e) => e > now_ms,
            None => true,
        }
    } else {
        true
    };
    pending && ready && alive
}

fn before(a: &DispatchCandidate, b: &DispatchCandidate) -> (r: bool)
    ensures
        r == dispatch_before(*a, *b),
{
    a.priority.0 < b.priority.0 || (a.priority.0 == b.priority.0 && a.id < b.id)
}

/// Ids are unique among the candidates.
pub open spec fn distinct_ids(c: Seq<DispatchCandidate>) -> bool {
    forall|i: int, j: int| 0 <= i < j < c.len() ==> #[trigger] c[i].id != #[trigger] c[j].id
}

/// `sel` is a selection of up to `limit` candidates to claim, in dispatch
/// order: it lists candidate positions; it is strictly increasing in dispatch
/// order, holds only eligible candidates, and any eligible candidate left out
/// comes after all selected ones — and none is left out when fewer than
/// `limit` were selected.
pub open spec fn dispatch_selection(
    cands: Seq<DispatchCandidate>,
    now_ms: i64,
    check_expiry: bool,
    limit: int,
    sel: Seq<usize>,
) -> bool {
    &&& sel.len() <= limit
    &&& forall|k: int| 0 <= k < sel.len() ==> #[trigger] sel[k] < cands.len() && dispatchable(
        cands[sel[k] as int],
        now_ms,
        check_expiry,
    )
    &&& forall|k: int| 0 <= k < sel.len() - 1 ==> dispatch_before(cands[#[trigger] sel[k] as int], cands[sel[k + 1] as int])
    &&& forall|i: int|
        0 <= i < cands.len() && dispatchable(#[trigger] cands[i], now_ms, check_expiry) && !sel.contains(i as usize)
            ==> sel.len() == limit && forall|k: int| 0 <= k < sel.len() ==> dispatch_before(
            cands[#[trigger] sel[k] as int],
            cands[i],
        )
}

/// Select up to `limit` candidates to claim, in dispatch order.
pub fn select_for_dispatch(cands: &Vec<DispatchCandidate>, now_ms: i64, check_expiry: bool, limit: usize) -> (r:
    Vec<usize>)
    requires
        distinct_ids(cands@),
    ensures
        dispatch_selection(cands@, now_ms, check_expiry, limit as int, r@),
{
    let mut sel: Vec<usize> = Vec::new();
    while sel.len() < limit
        invariant
            distinct_ids(cands@),
            sel@.len() <= limit,
            forall|k: int| 0 <= k < sel@.len() ==> #[trigger] sel@[k] < cands@.len() && dispatchable(
                cands@[sel@[k] as int],
                now_ms,
                check_expiry,
            ),
            forall|k: int|
                0 <= k < sel@.len() - 1 ==> dispatch_before(cands@[#[trigger] sel@[k] as int], cands@[sel@[k + 1] as int]),
            // Everything eligible that is not after the last selection is selected.
            sel@.len() > 0 ==> forall|i: int|
                0 <= i < cands@.len() && dispatchable(#[trigger] cands@[i], now_ms, check_expiry) && !dispatch_before(
                    cands@[sel@[sel@.len() - 1] as int],
                    cands@[i],
                ) ==> sel@.contains(i as usize),
        decreases limit - sel@.len(),
    {
        let has_last = sel.len() > 0;
        let mut best: Option<usize> = None;
        let mut j: usize = 0;
        while j < cands.len()
            invariant
                distinct_ids(cands@),
                j <= cands@.len(),
                has_last == (sel@.len() > 0),
                sel@.len() > 0 ==> sel@[sel@.len() - 1] < cands@.len(),
                match best {
                    Some(b) => b < j && dispatchable(cands@[b as int], now_ms, check_expiry) && (has_last
                        ==> dispatch_before(cands@[sel@[sel@.len() - 1] as int], cands@[b as int])),
                    None => true,
                },
                forall|i: int|
                    0 <= i < j && dispatchable(#[trigger] cands@[i], now_ms, check_expiry) && (has_last
                        ==> dispatch_before(cands@[sel@[sel@.len() - 1] as int], cands@[i])) ==> (best matches Some(
                        b,
                    ) && (b == i || dispatch_before(cands@[b as int], cands@[i]))),
            decreases cands@.len() - j,
        {
            let c = &cands[j];
            if is_dispatchable(c, now_ms, check_expiry) {
                let after_last = if has_last {
                    before(&cands[sel[sel.len() - 1]], c)
                } else {
                    true
                };
                if after_last {
                    match best {
                        Some(b) => {
                            if before(c, &cands[b]) {
                                best = Some(j);
                            }
                        },
                        None => {
                            best = Some(j);
                        },
                    }
                }
            }
            proof {
                assert forall|i: int|
                    0 <= i < j + 1 && dispatchable(#[trigger] cands@[i], now_ms, check_expiry) && (has_last
                        ==> dispatch_before(cands@[sel@[sel@.len() - 1] as int], cands@[i])) implies (best matches Some(
                        b,
                    ) && (b == i || dispatch_before(cands@[b as int], cands@[i]))) by {
                    if i < j {
                        let b = best->0;
                        if b == j && b != i {
                            // The new best precedes the old best, which precedes i.
                            assert(cands@[i].id != cands@[j as int].id);
                        }
                    }
                }
            }
            j = j + 1;
        }
        match best {
            None => {
                proof {
                    assert forall|i: int|
                        0 <= i < cands@.len() && dispatchable(#[trigger] cands@[i], now_ms, check_expiry) && !sel@.contains(
                            i as usize,
                        ) implies sel@.len() == limit && forall|k: int| 0 <= k < sel@.len() ==> dispatch_before(
                            cands@[#[trigger] sel@[k] as int],
                            cands@[i],
                        ) by {
                        assert(false);
                    }
                }
                return sel;
            },
            Some(b) => {
                let ghost old_sel = sel@;
                sel.push(b);
                proof {
                    assert forall|i: int|
                        0 <= i < cands@.len() && dispatchable(#[trigger] cands@[i], now_ms, check_expiry) && !dispatch_before(
                            cands@[sel@[sel@.len() - 1] as int],
                            cands@[i],
                        ) implies sel@.contains(i as usize) by {
                        if i as usize == b {
                            assert(sel@[sel@.len() - 1] == b);
                        } else if old_sel.len() > 0 && !dispatch_before(cands@[old_sel[old_sel.len() - 1] as int], cands@[i]) {
                            assert(old_sel.contains(i as usize));
                            let w = choose|w: int| 0 <= w < old_sel.len() && old_sel[w] == i as usize;
                            assert(sel@[w] == i as usize);
                        } else {
                            assert(cands@[i].id != cands@[b as int].id);
                        }
                    }
                }
            },
        }
    }
    proof {
        assert forall|i: int|
            0 <= i < cands@.len() && dispatchable(#[trigger] cands@[i], now_ms, check_expiry) && !sel@.contains(
                i as usize,
            ) implies sel@.len() == limit && forall|k: int| 0 <= k < sel@.len() ==> dispatch_before(
                cands@[#[trigger] sel@[k] as int],
                cands@[i],
            ) by {
            if sel@.len() > 0 {
                assert(dispatch_before(cands@[sel@[sel@.len() - 1] as int], cands@[i]));
                assert forall|k: int| 0 <= k < sel@.len() implies dispatch_before(
                    cands@[#[trigger] sel@[k] as int],
                    cands@[i],
                ) by {
                    lemma_chain(cands@, sel@, k, i);
                }
            }
        }
    }
    sel
}

proof fn lemma_chain(cands: Seq<DispatchCandidate>, sel: Seq<usize>, k: int, i: int)
    requires
        0 <= k < sel.len(),
        0 <= i < cands.len(),
        forall|m: int| 0 <= m < sel.len() ==> #[trigger] sel[m] < cands.len(),
        forall|m: int| 0 <= m < sel.len() - 1 ==> dispatch_before(cands[#[trigger] sel[m] as int], cands[sel[m + 1] as int]),
        dispatch_before(cands[sel[sel.len() - 1] as int], cands[i]),
    ensures
        dispatch_before(cands[sel[k] as int], cands[i]),
    decreases sel.len() - k,
{
    if k < sel.len() - 1 {
        lemma_chain(cands, sel, k + 1, i);
        assert(dispatch_before(cands[sel[k] as int], cands[sel[k + 1] as int]));
    }
}

/// In a selection, every candidate comes before each one listed after it.
proof fn lemma_selection_sorted(cands: Seq<DispatchCandidate>, sel: Seq<usize>, m: int, k: int)
    requires
        0 <= m < k < sel.len(),
        forall|q: int| 0 <= q < sel.len() ==> #[trigger] sel[q] < cands.len(),
        forall|q: int| 0 <= q < sel.len() - 1 ==> dispatch_before(cands[#[trigger] sel[q] as int], cands[sel[q + 1] as int]),
    ensures
        dispatch_before(cands[sel[m] as int], cands[sel[k] as int]),
    decreases k - m,
{
    if m + 1 < k {
        lemma_selection_sorted(cands, sel, m + 1, k);
        assert(dispatch_before(cands[sel[m] as int], cands[sel[m + 1] as int]));
    } else {
        assert(dispatch_before(cands[sel[m] as int], cands[sel[m + 1] as int]));
    }
}

/// Two selections that agree before position `k` cannot have the first's
/// entry at `k` come strictly before the second's.
proof fn lemma_no_earlier_entry(
    cands: Seq<DispatchCandidate>,
    now_ms: i64,
    check_expiry: bool,
    limit: int,
    a: Seq<usize>,
    b: Seq<usize>,
    k: int,
)
    requires
        dispatch_selection(cands, now_ms, check_expiry, limit, a),
        dispatch_selection(cands, now_ms, check_expiry, limit, b),
        0 <= k < a.len(),
        k < b.len(),
        forall|j: int| 0 <= j < k ==> a[j] == b[j],
    ensures
        !dispatch_before(cands[a[k] as int], cands[b[k] as int]),
{
    let x = a[k];
    if dispatch_before(cands[a[k] as int], cands[b[k] as int]) {
        assert(x < cands.len() && dispatchable(cands[x as int], now_ms, check_expiry));
        if b.contains(x) {
            let m = choose|m: int| 0 <= m < b.len() && b[m] == x;
            if m < k {
                assert(a[m] == x);
                lemma_selection_sorted(cands, a, m, k);
            } else if m > k {
                lemma_selection_sorted(cands, b, k, m);
            }
        } else {
            assert((x as int) as usize == x);
            assert(dispatch_before(cands[b[k] as int], cands[x as int]));
        }
    }
}

/// Over the same candidates, at the same moment and with the same limit,
/// there is only one dispatch selection: any two agree, so looking at the
/// next task twice without a change in between gives the same task.
pub proof fn lemma_dispatch_selection_unique(
    cands: Seq<DispatchCandidate>,
    now_ms: i64,
    check_expiry: bool,
    limit: int,
    a: Seq<usize>,
    b: Seq<usize>,
)
    requires
        distinct_ids(cands),
        dispatch_selection(cands, now_ms, check_expiry, limit, a),
        dispatch_selection(cands, now_ms, check_expiry, limit, b),
    ensures
        a == b,
{
    let common = if a.len() <= b.len() {
        a.len() as int
    } else {
        b.len() as int
    };
    lemma_selections_agree_before(cands, now_ms, check_expiry, limit, a, b, common);
    lemma_selection_not_shorter(cands, now_ms, check_expiry, limit, a, b);
    lemma_selection_not_shorter(cands, now_ms, check_expiry, limit, b, a);
    assert(a =~= b);
}

/// Two selections agree on their first `n` entries.
proof fn lemma_selections_agree_before(
    cands: Seq<DispatchCandidate>,
    now_ms: i64,
    check_expiry: bool,
    limit: int,
    a: Seq<usize>,
    b: Seq<usize>,
    n: int,
)
    requires
        distinct_ids(cands),
        dispatch_selection(cands, now_ms, check_expiry, limit, a),
        dispatch_selection(cands, now_ms, check_expiry, limit, b),
        0 <= n <= a.len(),
        n <= b.len(),
    ensures
        forall|j: int| 0 <= j < n ==> a[j] == b[j],
    decreases n,
{
    if n > 0 {
        let k = n - 1;
        lemma_selections_agree_before(cands, now_ms, check_expiry, limit, a, b, k);
        let x = a[k];
        let y = b[k];
        assert(x < cands.len() && y < cands.len());
        if x != y {
            if x < y {
                assert(cands[x as int].id != cands[y as int].id);
            } else {
                assert(cands[y as int].id != cands[x as int].id);
            }
            lemma_no_earlier_entry(cands, now_ms, check_expiry, limit, a, b, k);
            lemma_no_earlier_entry(cands, now_ms, check_expiry, limit, b, a, k);
        }
    }
}

/// When two selections agree on their common entries, the first is not the
/// shorter: stopping early would leave out an eligible candidate below the limit.
proof fn lemma_selection_not_shorter(
    cands: Seq<DispatchCandidate>,
    now_ms: i64,
    check_expiry: bool,
    limit: int,
    a: Seq<usize>,
    b: Seq<usize>,
)
    requires
        dispatch_selection(cands, now_ms, check_expiry, limit, a),
        dispatch_selection(cands, now_ms, check_expiry, limit, b),
        forall|j: int| 0 <= j < a.len() && j < b.len() ==> a[j] == b[j],
    ensures
        a.len() >= b.len(),
{
    if a.len() < b.len() {
        let n = a.len() as int;
        let x = b[n];
        assert(x < cands.len() && dispatchable(cands[x as int], now_ms, check_expiry));
        if a.contains(x) {
            let m = choose|m: int| 0 <= m < a.len() && a[m] == x;
            assert(b[m] == x);
            lemma_selection_sorted(cands, b, m, n);
        } else {
            assert((x as int) as usize == x);
            assert(a.len() == limit);
        }
    }
}

/// Eligibility for dispatch: only a pending task is eligible, never before
/// its delay ends nor, when expiry is checked, once it has expired; a
/// pending task whose delay has ended and that has not expired is eligible.
pub proof fn lemma_dispatch_eligibility(c: DispatchCandidate, now_ms: i64, check_expiry: bool)
    ensures
        dispatchable(c, now_ms, check_expiry) ==> c.status == TaskStatus::Pending,
        dispatchable(c, now_ms, check_expiry) && c.run_after_ms is Some ==> c.run_after_ms->0 <= now_ms,
        dispatchable(c, now_ms, check_expiry) && check_expiry && c.expires_at_ms is Some ==> c.expires_at_ms->0
            > now_ms,
        c.status == TaskStatus::Pending && (c.run_after_ms is None || c.run_after_ms->0 <= now_ms) && (
        !check_expiry || c.expires_at_ms is None || c.expires_at_ms->0 > now_ms) ==> dispatchable(
            c,
            now_ms,
            check_expiry,
        ),
{
}

/// Dispatch order: a lower priority value goes first; between equal
/// priority values the lower id goes first; nothing goes before a task
/// with a lower priority value.
pub proof fn lemma_dispatch_order(a: DispatchCandidate, b: DispatchCandidate)
    ensures
        a.priority.0 < b.priority.0 ==> dispatch_before(a, b),
        a.priority.0 == b.priority.0 && a.id < b.id ==> dispatch_before(a, b),
        dispatch_before(a, b) ==> a.priority.0 <= b.priority.0,
        dispatch_before(a, b) && a.priority.0 == b.priority.0 ==> a.id < b.id,
{
}

/// Every task a dispatch selection claims is pending, its delay has ended,
/// and, when expiry is checked, it has not expired; the claimed tasks come
/// in order of priority value, then id.
pub proof fn lemma_selection_claims_pending(
    cands: Seq<DispatchCandidate>,
    now_ms: i64,
    check_expiry: bool,
    limit: int,
    sel: Seq<usize>,
)
    requires
        dispatch_selection(cands, now_ms, check_expiry, limit, sel),
    ensures
        forall|k: int|
            0 <= k < sel.len() ==> {
                let c = #[trigger] cands[sel[k] as int];
                &&& c.status == TaskStatus::Pending
                &&& (c.run_after_ms matches Some(r) ==> r <= now_ms)
                &&& (check_expiry && c.expires_at_ms is Some ==> c.expires_at_ms->0 > now_ms)
            },
        forall|k: int|
            0 <= k < sel.len() - 1 ==> {
                let a = cands[#[trigger] sel[k] as int];
                let b = cands[sel[k + 1] as int];
                a.priority.0 < b.priority.0 || (a.priority.0 == b.priority.0 && a.id < b.id)
            },
{
    assert forall|k: int| 0 <= k < sel.len() implies {
        let c = #[trigger] cands[sel[k] as int];
        &&& c.status == TaskStatus::Pending
        &&& (c.run_after_ms matches Some(r) ==> r <= now_ms)
        &&& (check_expiry && c.expires_at_ms is Some ==> c.expires_at_ms->0 > now_ms)
    } by {
        assert(sel[k] < cands.len());
        lemma_dispatch_eligibility(cands[sel[k] as int], now_ms, check_expiry);
    }
}

/// The expiry a task gets when claimed: a TTL counted from the first
/// attempt starts now unless an expiry is already set.
pub fn claim_expiry(ttl_from: TtlFrom, ttl_seconds: Option<i64>, expires_at_ms: Option<i64>, now_ms: i64) -> (r:
    Option<i64>)
    requires
        ttl_from == TtlFrom::FirstAttempt && ttl_seconds is Some && expires_at_ms is None ==> i64::MIN <= now_ms
            + ttl_seconds->0 * 1000 <= i64::MAX,
    ensures
        r == if ttl_from == TtlFrom::FirstAttempt && ttl_seconds is Some && expires_at_ms is None {
            Some((now_ms + ttl_seconds->0 * 1000) as i64)
        } else {
            expires_at_ms
        },
{
    match (ttl_from, ttl_seconds, expires_at_ms) {
        (TtlFrom::FirstAttempt, Some(t), None) => {
            let at: i128 = now_ms as i128 + t as i128 * 1000;
            Some(at as i64)
        },
        _ => expires_at_ms,
    }
}

} // verus!
