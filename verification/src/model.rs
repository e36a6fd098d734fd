//! Mathematical model of the availability resolver.
//!
//! The resolver's whole behaviour is captured by a state record ([`Model`])
//! and three transition functions: [`spec_resolve`] for an acquisition
//! attempt, [`spec_complete`] for a completion notification, and
//! [`spec_cancel`] for shutdown.  The executable resolver promises, in its
//! contracts, to follow these transitions exactly; the scheduling laws in
//! `laws` are theorems about the transitions alone.

use vstd::prelude::*;

verus! {

/// State of the resolver.
///
/// Every acquisition request — whether granted at once or suspended — gets a
/// fresh id drawn from `next_id`, so ids increase in arrival order and are
/// never reused.  A granted request's id becomes the id of its lease.
pub struct Model {
    /// Per worker: the id of the acquisition currently leased to it,
    /// `None` while the worker is idle.
    pub leases: Seq<Option<u64>>,
    /// Ids of suspended acquisition requests, earliest arrival first.
    pub waiters: Seq<u64>,
    /// The id the next acquisition request will receive.
    pub next_id: u64,
    /// Number of jobs submitted but not yet resolved
    /// (neither completed nor cancelled).
    pub pending: usize,
    /// Set once shutdown has begun; never cleared.
    pub closed: bool,
}

/// Outcome of one acquisition attempt.
pub enum Resolution {
    /// An idle worker was leased at once.
    Leased { worker: int, id: int },
    /// Every worker was busy: the request joined the waiter queue.
    Suspended { id: int },
    /// Shutdown had begun: the request fails with `PoolTerminated`.
    Rejected,
}

/// Effect of one completion notification.
pub enum Release {
    /// The freed worker was handed, still busy, to the earliest waiter,
    /// which now holds the lease `id`.
    Handoff { worker: int, id: int },
    /// No waiter was queued: the worker went back to idle.
    Freed,
    /// The lease was not the worker's current one (already released):
    /// the state is untouched.
    Stale,
}

/// Number of busy workers among the first `k` slots.
pub open spec fn busy_up_to(leases: Seq<Option<u64>>, k: int) -> int
    decreases k,
{
    if k <= 0 {
        0
    } else {
        busy_up_to(leases, k - 1) + if leases[k - 1] is Some {
            1int
        } else {
            0int
        }
    }
}

/// Number of busy workers.
pub open spec fn busy_count(m: Model) -> int {
    busy_up_to(m.leases, m.leases.len() as int)
}

/// Number of idle workers.
pub open spec fn idle_count(m: Model) -> int {
    m.leases.len() - busy_count(m)
}

/// Some worker is idle.
pub open spec fn has_idle(m: Model) -> bool {
    exists|w: int| 0 <= w < m.leases.len() && m.leases[w] is None
}

/// Index of the first idle slot at or after `i`; the length if there is none.
pub open spec fn first_idle_from(leases: Seq<Option<u64>>, i: int) -> int
    decreases leases.len() - i,
{
    if i < 0 || i >= leases.len() {
        leases.len() as int
    } else if leases[i] is None {
        i
    } else {
        first_idle_from(leases, i + 1)
    }
}

/// Index of the first idle worker, in id order.
pub open spec fn first_idle(m: Model) -> int {
    first_idle_from(m.leases, 0)
}

/// The lease `(worker, id)` is the one the resolver currently has out
/// for that worker.
pub open spec fn valid_lease(m: Model, worker: int, id: int) -> bool {
    &&& 0 <= worker < m.leases.len()
    &&& m.leases[worker] is Some
    &&& m.leases[worker]->0 == id
}

/// Well-formedness: what holds of every state the resolver can reach.
pub open spec fn wf(m: Model) -> bool {
    // at least one worker, fixed for the pool's lifetime
    &&& m.leases.len() >= 1
    // the pending counter counts exactly the unresolved submissions:
    // those running on a worker plus those still waiting
    &&& m.pending == busy_count(m) + m.waiters.len()
    // ids are drawn from next_id, so all live ids are below it
    &&& (forall|i: int| #![trigger m.waiters[i]]
        0 <= i < m.waiters.len() ==> m.waiters[i] < m.next_id)
    &&& (forall|w: int| #![trigger m.leases[w]]
        0 <= w < m.leases.len() && m.leases[w] is Some ==> m.leases[w]->0 < m.next_id)
    // the waiter queue is in arrival order: ids strictly increase
    &&& (forall|i: int, j: int| #![trigger m.waiters[i], m.waiters[j]]
        0 <= i < j < m.waiters.len() ==> m.waiters[i] < m.waiters[j])
    // no id is live twice: leases are mutually distinct ...
    &&& (forall|w1: int, w2: int| #![trigger m.leases[w1], m.leases[w2]]
        0 <= w1 < m.leases.len() && 0 <= w2 < m.leases.len() && w1 != w2
            && m.leases[w1] is Some && m.leases[w2] is Some
            ==> m.leases[w1]->0 != m.leases[w2]->0)
    // ... and no request is both leased and waiting
    &&& (forall|w: int, i: int| #![trigger m.leases[w], m.waiters[i]]
        0 <= w < m.leases.len() && 0 <= i < m.waiters.len() && m.leases[w] is Some
            ==> m.leases[w]->0 != m.waiters[i])
    // shutdown drains the queue and keeps it drained
    &&& (m.closed ==> m.waiters.len() == 0)
    // a request only waits while the pool is saturated
    &&& (m.waiters.len() > 0 ==> forall|w: int| #![trigger m.leases[w]]
        0 <= w < m.leases.len() ==> m.leases[w] is Some)
}

/// State of a freshly constructed resolver for `n` workers.
pub open spec fn init_state(n: usize) -> Model {
    Model {
        leases: Seq::new(n as nat, |w: int| None::<u64>),
        waiters: Seq::empty(),
        next_id: 0,
        pending: 0,
        closed: false,
    }
}

/// One acquisition attempt: grant the first idle worker, else suspend the
/// request at the tail of the waiter queue, else — after shutdown — reject.
pub open spec fn spec_resolve(m: Model) -> (Model, Resolution) {
    if m.closed {
        (m, Resolution::Rejected)
    } else if has_idle(m) {
        let w = first_idle(m);
        (
            Model {
                leases: m.leases.update(w, Some(m.next_id)),
                waiters: m.waiters,
                next_id: (m.next_id + 1) as u64,
                pending: (m.pending + 1) as usize,
                closed: m.closed,
            },
            Resolution::Leased { worker: w, id: m.next_id as int },
        )
    } else {
        (
            Model {
                leases: m.leases,
                waiters: m.waiters.push(m.next_id),
                next_id: (m.next_id + 1) as u64,
                pending: (m.pending + 1) as usize,
                closed: m.closed,
            },
            Resolution::Suspended { id: m.next_id as int },
        )
    }
}

/// One completion notification for the lease `(worker, id)`: if the lease is
/// current, resolve the completed job; the worker is handed to the earliest
/// waiter if one is queued, and goes idle otherwise.  A stale lease changes
/// nothing — the double-release guard.
pub open spec fn spec_complete(m: Model, worker: int, id: int) -> (Model, Release) {
    if !valid_lease(m, worker, id) {
        (m, Release::Stale)
    } else if m.waiters.len() > 0 {
        let t = m.waiters[0];
        (
            Model {
                leases: m.leases.update(worker, Some(t)),
                waiters: m.waiters.subrange(1, m.waiters.len() as int),
                next_id: m.next_id,
                pending: (m.pending - 1) as usize,
                closed: m.closed,
            },
            Release::Handoff { worker, id: t as int },
        )
    } else {
        (
            Model {
                leases: m.leases.update(worker, None),
                waiters: m.waiters,
                next_id: m.next_id,
                pending: (m.pending - 1) as usize,
                closed: m.closed,
            },
            Release::Freed,
        )
    }
}

/// Shutdown: close the resolver and drain the whole waiter queue.  The
/// drained requests (returned in arrival order) each fail with
/// `PoolTerminated`; leased jobs keep running and resolve normally.
pub open spec fn spec_cancel(m: Model) -> (Model, Seq<u64>) {
    (
        Model {
            leases: m.leases,
            waiters: Seq::empty(),
            next_id: m.next_id,
            pending: (m.pending - m.waiters.len()) as usize,
            closed: true,
        },
        m.waiters,
    )
}

/// The busy count of a prefix lies between 0 and the prefix length.
pub proof fn lemma_busy_up_to_bounds(leases: Seq<Option<u64>>, k: int)
    requires
        0 <= k <= leases.len(),
    ensures
        0 <= busy_up_to(leases, k) <= k,
    decreases k,
{
    if k > 0 {
        lemma_busy_up_to_bounds(leases, k - 1);
    }
}

/// The busy count grows with the prefix.
pub proof fn lemma_busy_up_to_monotone(leases: Seq<Option<u64>>, k1: int, k2: int)
    requires
        0 <= k1 <= k2,
    ensures
        busy_up_to(leases, k1) <= busy_up_to(leases, k2),
    decreases k2 - k1,
{
    if k1 < k2 {
        lemma_busy_up_to_monotone(leases, k1, k2 - 1);
    }
}

/// How one slot's update moves the busy count of a prefix.
pub proof fn lemma_busy_up_to_update(leases: Seq<Option<u64>>, k: int, w: int, v: Option<u64>)
    requires
        0 <= k <= leases.len(),
        0 <= w < leases.len(),
    ensures
        busy_up_to(leases.update(w, v), k) == busy_up_to(leases, k) + if w < k {
            (if v is Some { 1int } else { 0int }) - (if leases[w] is Some { 1int } else { 0int })
        } else {
            0int
        },
    decreases k,
{
    if k > 0 {
        lemma_busy_up_to_update(leases, k - 1, w, v);
    }
}

/// A busy slot makes the busy count positive.
pub proof fn lemma_busy_slot_counts(leases: Seq<Option<u64>>, w: int)
    requires
        0 <= w < leases.len(),
        leases[w] is Some,
    ensures
        busy_up_to(leases, leases.len() as int) >= 1,
{
    assert(busy_up_to(leases, w + 1) >= 1) by {
        lemma_busy_up_to_bounds(leases, w);
    }
    lemma_busy_up_to_monotone(leases, w + 1, leases.len() as int);
}

/// A fully busy prefix counts as its whole length.
pub proof fn lemma_busy_up_to_full(leases: Seq<Option<u64>>, k: int)
    requires
        0 <= k <= leases.len(),
        forall|w: int| #![trigger leases[w]] 0 <= w < k ==> leases[w] is Some,
    ensures
        busy_up_to(leases, k) == k,
    decreases k,
{
    if k > 0 {
        lemma_busy_up_to_full(leases, k - 1);
    }
}

/// `first_idle_from` finds exactly the first idle slot at or after `i`.
pub proof fn lemma_first_idle_from(leases: Seq<Option<u64>>, i: int)
    requires
        0 <= i <= leases.len(),
    ensures
        i <= first_idle_from(leases, i) <= leases.len(),
        first_idle_from(leases, i) < leases.len() ==> leases[first_idle_from(leases, i)] is None,
        forall|j: int| #![trigger leases[j]]
            i <= j < first_idle_from(leases, i) ==> leases[j] is Some,
    decreases leases.len() - i,
{
    if i < leases.len() && !(leases[i] is None) {
        lemma_first_idle_from(leases, i + 1);
    }
}

/// If the slots below `w` are busy and slot `w` is idle, `w` is the first
/// idle slot.
pub proof fn lemma_first_idle_is(leases: Seq<Option<u64>>, w: int)
    requires
        0 <= w < leases.len(),
        leases[w] is None,
        forall|j: int| #![trigger leases[j]] 0 <= j < w ==> leases[j] is Some,
    ensures
        first_idle_from(leases, 0) == w,
{
    lemma_first_idle_prefix(leases, 0, w);
}

/// Helper: `first_idle_from` skips a busy stretch.
proof fn lemma_first_idle_prefix(leases: Seq<Option<u64>>, i: int, w: int)
    requires
        0 <= i <= w < leases.len(),
        leases[w] is None,
        forall|j: int| #![trigger leases[j]] i <= j < w ==> leases[j] is Some,
    ensures
        first_idle_from(leases, i) == w,
    decreases w - i,
{
    if i < w {
        lemma_first_idle_prefix(leases, i + 1, w);
    }
}

/// A fresh resolver is well formed.
pub proof fn lemma_init_state_wf(n: usize)
    requires
        n >= 1,
    ensures
        wf(init_state(n)),
{
    let m = init_state(n);
    assert(busy_up_to(m.leases, n as int) == 0) by {
        lemma_busy_all_idle(m.leases, n as int);
    }
}

/// Helper: an all-idle prefix counts no busy worker.
proof fn lemma_busy_all_idle(leases: Seq<Option<u64>>, k: int)
    requires
        0 <= k <= leases.len(),
        forall|w: int| #![trigger leases[w]] 0 <= w < k ==> leases[w] is None,
    ensures
        busy_up_to(leases, k) == 0,
    decreases k,
{
    if k > 0 {
        lemma_busy_all_idle(leases, k - 1);
    }
}

/// An acquisition attempt preserves well-formedness.
pub proof fn lemma_resolve_preserves_wf(m: Model)
    requires
        wf(m),
        m.next_id < u64::MAX,
        m.pending < usize::MAX,
    ensures
        wf(spec_resolve(m).0),
{
    let m1 = spec_resolve(m).0;
    if m.closed {
    } else if has_idle(m) {
        let w = first_idle(m);
        lemma_first_idle_from(m.leases, 0);
        assert(w < m.leases.len()) by {
            let wit = choose|x: int| 0 <= x < m.leases.len() && m.leases[x] is None;
            assert(m.leases[wit] is None);
        }
        lemma_busy_up_to_update(m.leases, m.leases.len() as int, w, Some(m.next_id));
        assert(busy_count(m1) == busy_count(m) + 1);
        assert(m1.waiters.len() == 0) by {
            if m.waiters.len() > 0 {
                assert(m.leases[w] is Some);
            }
        }
    } else {
        assert(busy_count(m1) == busy_count(m));
        assert(forall|w: int| #![trigger m.leases[w]]
            0 <= w < m.leases.len() ==> m.leases[w] is Some) by {
            assert forall|w: int| 0 <= w < m.leases.len() implies #[trigger] m.leases[w] is Some by {
                if m.leases[w] is None {
                    assert(has_idle(m));
                }
            }
        }
    }
}

/// A completion notification preserves well-formedness.
pub proof fn lemma_complete_preserves_wf(m: Model, worker: int, id: int)
    requires
        wf(m),
    ensures
        wf(spec_complete(m, worker, id).0),
{
    if valid_lease(m, worker, id) {
        let m1 = spec_complete(m, worker, id).0;
        lemma_busy_slot_counts(m.leases, worker);
        if m.waiters.len() > 0 {
            let t = m.waiters[0];
            lemma_busy_up_to_update(m.leases, m.leases.len() as int, worker, Some(t));
            assert(busy_count(m1) == busy_count(m));
            assert(forall|i: int| #![trigger m1.waiters[i]]
                0 <= i < m1.waiters.len() ==> m1.waiters[i] == m.waiters[i + 1]);
        } else {
            lemma_busy_up_to_update(m.leases, m.leases.len() as int, worker, None::<u64>);
            assert(busy_count(m1) == busy_count(m) - 1);
        }
    }
}

/// Shutdown preserves well-formedness.
pub proof fn lemma_cancel_preserves_wf(m: Model)
    requires
        wf(m),
    ensures
        wf(spec_cancel(m).0),
{
    let m1 = spec_cancel(m).0;
    lemma_busy_up_to_bounds(m.leases, m.leases.len() as int);
    assert(busy_count(m1) == busy_count(m));
}

} // verus!
