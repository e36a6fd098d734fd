//! The scheduling laws: what the pool guarantees, proved once and for all
//! over the transitions of [`crate::model`].  Because every resolver
//! operation is proved to follow those transitions exactly, each law holds
//! of the running pool as well.

use vstd::prelude::*;

use crate::model::busy_count;
use crate::model::has_idle;
use crate::model::idle_count;
use crate::model::init_state;
use crate::model::lemma_busy_up_to_bounds;
use crate::model::lemma_cancel_preserves_wf;
use crate::model::lemma_complete_preserves_wf;
use crate::model::lemma_first_idle_is;
use crate::model::spec_cancel;
use crate::model::spec_complete;
use crate::model::spec_resolve;
use crate::model::valid_lease;
use crate::model::wf;
use crate::model::Model;
use crate::model::Release;
use crate::model::Resolution;

verus! {

/// The state after `k` consecutive acquisition attempts on `m`.
pub open spec fn resolve_iter(m: Model, k: nat) -> Model
    decreases k,
{
    if k == 0 {
        m
    } else {
        spec_resolve(resolve_iter(m, (k - 1) as nat)).0
    }
}

/// Shape of a fresh pool of `n` workers after `k` acquisitions: the first
/// `min(k, n)` workers are leased to the first `k` requests in id order, the
/// overflow `k - n` requests wait in arrival order, and `k` jobs are pending.
proof fn lemma_fill(n: usize, k: nat)
    requires
        1 <= n,
        k <= usize::MAX,
    ensures
        resolve_iter(init_state(n), k).leases.len() == n,
        resolve_iter(init_state(n), k).next_id == k,
        resolve_iter(init_state(n), k).pending == k,
        !resolve_iter(init_state(n), k).closed,
        forall|w: int| #![trigger resolve_iter(init_state(n), k).leases[w]]
            0 <= w < n ==> resolve_iter(init_state(n), k).leases[w] == (if w < k {
                Some(w as u64)
            } else {
                None::<u64>
            }),
        resolve_iter(init_state(n), k).waiters == (if k <= n {
            Seq::<u64>::empty()
        } else {
            Seq::new((k - n) as nat, |i: int| (n + i) as u64)
        }),
    decreases k,
{
    if k == 0 {
        assert(init_state(n).waiters =~= Seq::<u64>::empty());
    } else {
        lemma_fill(n, (k - 1) as nat);
        let m0 = resolve_iter(init_state(n), (k - 1) as nat);
        let m1 = resolve_iter(init_state(n), k);
        assert(m1 == spec_resolve(m0).0);
        if k - 1 < n {
            assert(m0.leases[k - 1] is None);
            assert(has_idle(m0));
            lemma_first_idle_is(m0.leases, k - 1);
            assert(m1.leases =~= m0.leases.update(k - 1, Some(m0.next_id)));
            assert(m1.waiters =~= Seq::<u64>::empty());
        } else {
            assert forall|w: int| 0 <= w < n implies #[trigger] m0.leases[w] is Some by {}
            assert(!has_idle(m0)) by {
                if has_idle(m0) {
                    let wit = choose|x: int| 0 <= x < m0.leases.len() && m0.leases[x] is None;
                    assert(m0.leases[wit] is Some);
                }
            }
            assert(m1.waiters =~= Seq::new((k - n) as nat, |i: int| (n + i) as u64)) by {
                let f = |i: int| (n + i) as u64;
                if k - 1 == n {
                    assert(m1.waiters == Seq::<u64>::empty().push(m0.next_id));
                } else {
                    assert(m1.waiters == Seq::new((k - 1 - n) as nat, f).push(m0.next_id));
                }
            }
        }
    }
}

/// Outcome of the `k + 1`-st acquisition on a fresh pool of `n` workers:
/// granted worker `k` while `k < n`, suspended under id `k` once saturated.
proof fn lemma_fill_outcome(n: usize, k: nat)
    requires
        1 <= n,
        k < usize::MAX,
    ensures
        k < n ==> spec_resolve(resolve_iter(init_state(n), k)).1 == (Resolution::Leased {
            worker: k as int,
            id: k as int,
        }),
        k >= n ==> spec_resolve(resolve_iter(init_state(n), k)).1 == (Resolution::Suspended {
            id: k as int,
        }),
{
    lemma_fill(n, k);
    let m = resolve_iter(init_state(n), k);
    if k < n {
        assert(m.leases[k as int] is None);
        assert(has_idle(m));
        lemma_first_idle_is(m.leases, k as int);
    } else {
        assert(!has_idle(m)) by {
            if has_idle(m) {
                let wit = choose|x: int| 0 <= x < m.leases.len() && m.leases[x] is None;
                assert(m.leases[wit] is Some);
            }
        }
    }
}

/// With `k <= n` submissions on a fresh pool of `n` workers, every
/// submission acquires a worker immediately — none suspends — and the
/// pending count equals `k` until the first completion.
pub proof fn law_under_capacity_all_granted(n: usize, k: nat)
    requires
        1 <= n,
        k <= n,
    ensures
        forall|i: nat| #![trigger resolve_iter(init_state(n), i)]
            i < k ==> spec_resolve(resolve_iter(init_state(n), i)).1 == (Resolution::Leased {
                worker: i as int,
                id: i as int,
            }),
        resolve_iter(init_state(n), k).pending == k,
        resolve_iter(init_state(n), k).waiters.len() == 0,
{
    assert forall|i: nat| i < k implies spec_resolve(#[trigger] resolve_iter(init_state(n), i)).1
        == (Resolution::Leased { worker: i as int, id: i as int }) by {
        lemma_fill_outcome(n, i);
    }
    lemma_fill(n, k);
}

/// With `k > n` submissions on a fresh pool of `n` workers, exactly the
/// first `n` run immediately; each later submission suspends, and the
/// waiter queue holds the overflow in arrival order (ids `n, n + 1, ...`).
pub proof fn law_over_capacity_queues_in_arrival_order(n: usize, k: nat)
    requires
        1 <= n,
        n < k,
        k <= usize::MAX,
    ensures
        forall|i: nat| #![trigger resolve_iter(init_state(n), i)]
            i < n ==> spec_resolve(resolve_iter(init_state(n), i)).1 == (Resolution::Leased {
                worker: i as int,
                id: i as int,
            }),
        forall|i: nat| #![trigger resolve_iter(init_state(n), i)]
            n <= i < k ==> spec_resolve(resolve_iter(init_state(n), i)).1
                == (Resolution::Suspended { id: i as int }),
        busy_count(resolve_iter(init_state(n), k)) == n,
        resolve_iter(init_state(n), k).waiters.len() == k - n,
        forall|i: int| #![trigger resolve_iter(init_state(n), k).waiters[i]]
            0 <= i < k - n ==> resolve_iter(init_state(n), k).waiters[i] == (n + i) as u64,
    {
    assert forall|i: nat| i < k implies (i < n ==> spec_resolve(
        #[trigger] resolve_iter(init_state(n), i),
    ).1 == (Resolution::Leased { worker: i as int, id: i as int })) && (n <= i ==> spec_resolve(
        resolve_iter(init_state(n), i),
    ).1 == (Resolution::Suspended { id: i as int })) by {
        lemma_fill_outcome(n, i);
    }
    lemma_fill(n, k);
    let m = resolve_iter(init_state(n), k);
    assert(busy_count(m) == n) by {
        crate::model::lemma_busy_up_to_full(m.leases, m.leases.len() as int);
    }
}

/// A completion with a queued waiter hands the worker to the earliest
/// waiter — first requested, first served — and only shortens the queue at
/// its head.
pub proof fn law_handoff_serves_earliest_waiter(m: Model, worker: int, id: int)
    requires
        wf(m),
        valid_lease(m, worker, id),
        m.waiters.len() > 0,
    ensures
        spec_complete(m, worker, id).1 == (Release::Handoff {
            worker,
            id: m.waiters[0] as int,
        }),
        spec_complete(m, worker, id).0.waiters == m.waiters.subrange(1, m.waiters.len() as int),
        forall|i: int| #![trigger m.waiters[i]]
            0 <= i < m.waiters.len() ==> m.waiters[0] <= m.waiters[i],
{
}

/// Grants to waiters come in strictly increasing id order — arrival order —
/// however the workers happen to free up: whichever two leases complete
/// next, the first completion serves the earliest waiter and the second the
/// one that arrived right after it.
pub proof fn law_grant_order_follows_arrival_order(
    m: Model,
    worker1: int,
    id1: int,
    worker2: int,
    id2: int,
)
    requires
        wf(m),
        m.waiters.len() >= 2,
        valid_lease(m, worker1, id1),
        valid_lease(spec_complete(m, worker1, id1).0, worker2, id2),
    ensures
        spec_complete(m, worker1, id1).1 == (Release::Handoff {
            worker: worker1,
            id: m.waiters[0] as int,
        }),
        spec_complete(spec_complete(m, worker1, id1).0, worker2, id2).1 == (Release::Handoff {
            worker: worker2,
            id: m.waiters[1] as int,
        }),
        m.waiters[0] < m.waiters[1],
{
    lemma_complete_preserves_wf(m, worker1, id1);
    let m1 = spec_complete(m, worker1, id1).0;
    assert(m1.waiters[0] == m.waiters[1]);
}

/// The pending counter equals the number of unresolved submissions — those
/// leased to a worker plus those waiting.  It is never negative, and it is
/// zero exactly when nothing is leased and nothing waits: once every
/// submission has completed or been cancelled, it has returned to zero.
pub proof fn law_pending_counts_unresolved(m: Model)
    requires
        wf(m),
    ensures
        m.pending == busy_count(m) + m.waiters.len(),
        m.pending >= 0,
        (m.pending == 0) <==> (busy_count(m) == 0 && m.waiters.len() == 0),
{
    lemma_busy_up_to_bounds(m.leases, m.leases.len() as int);
}

/// A valid completion resolves exactly one job; a stale one resolves none.
pub proof fn law_completion_resolves_one_job(m: Model, worker: int, id: int)
    requires
        wf(m),
    ensures
        valid_lease(m, worker, id) ==> spec_complete(m, worker, id).0.pending == m.pending - 1,
        !valid_lease(m, worker, id) ==> spec_complete(m, worker, id) == (m, Release::Stale),
{
    if valid_lease(m, worker, id) {
        crate::model::lemma_busy_slot_counts(m.leases, worker);
    }
}

/// Draining twice is draining once: a second shutdown finds nothing to
/// cancel and changes nothing.
pub proof fn law_cancel_idempotent(m: Model)
    requires
        wf(m),
    ensures
        spec_cancel(spec_cancel(m).0).0 == spec_cancel(m).0,
        spec_cancel(spec_cancel(m).0).1 == Seq::<u64>::empty(),
{
    assert(spec_cancel(spec_cancel(m).0).1 =~= Seq::<u64>::empty());
}

/// Teardown leaves no queued request unresolved: every waiter — and no one
/// else — is drained, in arrival order, to be failed with `PoolTerminated`;
/// afterwards the queue is empty, the resolver is closed, and any further
/// acquisition is rejected at once.
pub proof fn law_teardown_resolves_every_waiter(m: Model)
    requires
        wf(m),
    ensures
        spec_cancel(m).1 == m.waiters,
        spec_cancel(m).0.waiters.len() == 0,
        spec_cancel(m).0.closed,
        wf(spec_cancel(m).0),
        spec_cancel(m).0.pending == m.pending - m.waiters.len(),
        spec_resolve(spec_cancel(m).0).1 == Resolution::Rejected,
        spec_resolve(spec_cancel(m).0).0 == spec_cancel(m).0,
{
    lemma_cancel_preserves_wf(m);
}

/// A worker freed by a completion goes to the request already waiting, never
/// to a newer one: the earliest waiter gets the lease at once, and a request
/// arriving right after the completion is queued behind it, under a later
/// id.
pub proof fn law_waiter_served_before_newcomer(m: Model, worker: int, id: int)
    requires
        wf(m),
        valid_lease(m, worker, id),
        m.waiters.len() > 0,
    ensures
        ({
            let after_completion = spec_complete(m, worker, id);
            let newcomer = spec_resolve(after_completion.0);
            &&& after_completion.1 == (Release::Handoff { worker, id: m.waiters[0] as int })
            &&& newcomer.1 == (Resolution::Suspended { id: after_completion.0.next_id as int })
            &&& m.waiters[0] < after_completion.0.next_id
        }),
{
    let m1 = spec_complete(m, worker, id).0;
    assert(!has_idle(m1)) by {
        if has_idle(m1) {
            let wit = choose|x: int| 0 <= x < m1.leases.len() && m1.leases[x] is None;
            assert(m.leases[wit] is Some);
            assert(m1.leases[wit] is Some);
        }
    }
}

/// The double-release guard: releasing the same lease a second time is
/// detected as stale and changes nothing, and the idle/busy split still
/// partitions the registry — no worker slot is freed twice.
pub proof fn law_double_release_detected(m: Model, worker: int, id: int)
    requires
        wf(m),
        valid_lease(m, worker, id),
    ensures
        ({
            let m1 = spec_complete(m, worker, id).0;
            &&& spec_complete(m1, worker, id) == (m1, Release::Stale)
            &&& idle_count(m1) + busy_count(m1) == m1.leases.len()
            &&& 0 <= busy_count(m1) <= m1.leases.len()
        }),
{
    lemma_complete_preserves_wf(m, worker, id);
    let m1 = spec_complete(m, worker, id).0;
    if m.waiters.len() > 0 {
        assert(m.leases[worker]->0 != m.waiters[0]);
    }
    assert(!valid_lease(m1, worker, id));
    lemma_busy_up_to_bounds(m1.leases, m1.leases.len() as int);
}

} // verus!
