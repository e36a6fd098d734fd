//! The pool facade's bookkeeping: lifecycle and submission accounting.
//!
//! A [`PoolCore`] owns the availability resolver and the pool's lifecycle
//! phase.  The embedding host owns the actual workers; it asks the core for
//! the registry's worker ids at initialization, reports whether that
//! initialization succeeded, routes every submission and completion through
//! the core, and at teardown first drains the waiter queue (failing each
//! drained request with `PoolTerminated`) and then terminates every worker
//! unconditionally — the documented hard stop.

use vstd::prelude::*;

use crate::model::init_state;
use crate::model::spec_cancel;
use crate::model::spec_complete;
use crate::model::spec_resolve;
use crate::model::wf;
use crate::model::Model;
use crate::model::Release;
use crate::model::Resolution;
use crate::resolver::Acquisition;
use crate::resolver::Lease;
use crate::resolver::PoolError;
use crate::resolver::ReleaseEffect;
use crate::resolver::Resolver;

verus! {

/// The pool's lifecycle.  Workers are created in `Created`, jobs are
/// accepted in `Ready`, and `Terminated` is terminal: it is reached on
/// teardown or on a failed initialization, and every worker is (or is being)
/// terminated there.
#[derive(Clone, Copy, Debug, PartialEq, Eq, Structural)]
pub enum Phase {
    /// Constructed; the workers are still being initialized.
    Created,
    /// Initialization succeeded; submissions are accepted.
    Ready,
    /// Torn down, or initialization failed: the pool is unusable.
    Terminated,
}

/// The verified state of the pool facade.
pub struct PoolCore {
    resolver: Resolver,
    phase: Phase,
}

impl PoolCore {
    /// The resolver's state.
    pub closed spec fn resolver_model(&self) -> Model {
        self.resolver@
    }

    /// The lifecycle phase.
    pub closed spec fn phase_spec(&self) -> Phase {
        self.phase
    }

    /// Well-formedness: the resolver is well formed; no job is accepted, or
    /// even counted, before initialization is done; a terminated pool's
    /// resolver is closed.
    pub open spec fn wf(&self) -> bool {
        &&& wf(self.resolver_model())
        &&& (self.phase_spec() is Created ==> self.resolver_model().waiters.len() == 0
            && self.resolver_model().pending == 0 && !self.resolver_model().closed)
        &&& (self.phase_spec() is Terminated ==> self.resolver_model().closed)
    }

    /// A pool core for `size` workers.  The size is fixed: the registry
    /// never grows or shrinks after this.
    pub fn new(size: usize) -> (r: PoolCore)
        requires
            size >= 1,
        ensures
            r.wf(),
            r.phase_spec() is Created,
            r.resolver_model() == init_state(size),
    {
        PoolCore { resolver: Resolver::new(size), phase: Phase::Created }
    }

    /// How many workers the pool owns.
    pub fn worker_count(&self) -> (n: usize)
        ensures
            n == self.resolver_model().leases.len(),
    {
        self.resolver.worker_count()
    }

    /// The registry's worker ids, in creation order: `0, 1, ..., size - 1`.
    /// Each id is stable for the pool's lifetime; the host assigns them to
    /// the workers it materializes during initialization.
    pub fn worker_ids(&self) -> (ids: Vec<usize>)
        ensures
            ids@.len() == self.resolver_model().leases.len(),
            forall|i: int| #![trigger ids@[i]] 0 <= i < ids@.len() ==> ids@[i] == i,
    {
        let n = self.resolver.worker_count();
        let mut ids: Vec<usize> = Vec::new();
        let mut i: usize = 0;
        while i < n
            invariant
                i <= n,
                ids@.len() == i,
                forall|j: int| #![trigger ids@[j]] 0 <= j < i ==> ids@[j] == j,
            decreases n - i,
        {
            ids.push(i);
            i = i + 1;
        }
        ids
    }

    /// Every worker initialized: the pool starts accepting submissions.
    /// Called exactly once, before the first submission.
    pub fn mark_initialized(&mut self)
        requires
            old(self).wf(),
            old(self).phase_spec() is Created,
        ensures
            final(self).wf(),
            final(self).phase_spec() is Ready,
            final(self).resolver_model() == old(self).resolver_model(),
    {
        self.phase = Phase::Ready;
    }

    /// A worker failed to initialize: the pool is left unusable.  The host
    /// surfaces `InitError` to the caller of `init`; every later submission
    /// is rejected with `PoolTerminated`.
    pub fn mark_init_failed(&mut self)
        requires
            old(self).wf(),
            old(self).phase_spec() is Created,
        ensures
            final(self).wf(),
            final(self).phase_spec() is Terminated,
            final(self).resolver_model() == spec_cancel(old(self).resolver_model()).0,
            final(self).resolver_model().pending == 0,
    {
        let _drained = self.resolver.cancel_pending_jobs();
        self.phase = Phase::Terminated;
    }

    /// Accept one submission and acquire a worker for it: the pending count
    /// includes the job from here until its completion (or, if it is queued,
    /// until its cancellation).  Follows `spec_resolve`: first idle worker,
    /// else queued in arrival order, else — once terminated — rejected with
    /// `PoolTerminated`, uncounted.
    ///
    /// Initialization must have finished first; the two bounds only keep
    /// the id and pending counters within their machine words.
    pub fn begin_submission(&mut self) -> (r: Result<Acquisition, PoolError>)
        requires
            old(self).wf(),
            !(old(self).phase_spec() is Created),
            old(self).resolver_model().next_id < u64::MAX,
            old(self).resolver_model().pending < usize::MAX,
        ensures
            final(self).wf(),
            final(self).phase_spec() == old(self).phase_spec(),
            final(self).resolver_model() == spec_resolve(old(self).resolver_model()).0,
            match r {
                Ok(Acquisition::Granted(l)) => spec_resolve(old(self).resolver_model()).1
                    == (Resolution::Leased { worker: l.worker_spec(), id: l.id_spec() }),
                Ok(Acquisition::Queued(t)) => spec_resolve(old(self).resolver_model()).1
                    == (Resolution::Suspended { id: t.id_spec() }),
                Err(e) => e == PoolError::PoolTerminated && spec_resolve(
                    old(self).resolver_model(),
                ).1 == Resolution::Rejected,
            },
            old(self).phase_spec() is Terminated ==> r == Err::<Acquisition,
                PoolError>(PoolError::PoolTerminated),
    {
        self.resolver.resolve_runnable()
    }

    /// Record one completion (success or execution error alike: the error is
    /// the submission's own business and does not touch the bookkeeping
    /// beyond this normal release).  Follows `spec_complete`: with the
    /// current lease, the job stops being pending and its worker goes to the
    /// earliest waiter or to idle; with a stale lease nothing changes.
    pub fn complete_submission(&mut self, lease: Lease) -> (r: ReleaseEffect)
        requires
            old(self).wf(),
        ensures
            final(self).wf(),
            final(self).phase_spec() == old(self).phase_spec(),
            final(self).resolver_model() == spec_complete(
                old(self).resolver_model(),
                lease.worker_spec(),
                lease.id_spec(),
            ).0,
            match r {
                ReleaseEffect::Handoff(l) => spec_complete(
                    old(self).resolver_model(),
                    lease.worker_spec(),
                    lease.id_spec(),
                ).1 == (Release::Handoff { worker: l.worker_spec(), id: l.id_spec() })
                    && l.worker_spec() == lease.worker_spec(),
                ReleaseEffect::Freed => spec_complete(
                    old(self).resolver_model(),
                    lease.worker_spec(),
                    lease.id_spec(),
                ).1 == Release::Freed,
                ReleaseEffect::Stale => spec_complete(
                    old(self).resolver_model(),
                    lease.worker_spec(),
                    lease.id_spec(),
                ).1 == Release::Stale,
            },
    {
        proof {
            if crate::model::valid_lease(
                old(self).resolver_model(),
                lease.worker_spec(),
                lease.id_spec(),
            ) {
                crate::model::lemma_busy_slot_counts(
                    old(self).resolver_model().leases,
                    lease.worker_spec(),
                );
            }
        }
        self.resolver.notify_job_complete(lease)
    }

    /// Whether the id counter and the pending counter still have headroom:
    /// exactly the machine-word bounds `begin_submission` asks of its caller.
    pub fn has_counter_headroom(&self) -> (r: bool)
        ensures
            r == (self.resolver_model().next_id < u64::MAX && self.resolver_model().pending
                < usize::MAX),
    {
        self.resolver.has_counter_headroom()
    }

    /// The pending-job counter: submissions accepted but not yet resolved.
    pub fn count_pending_jobs(&self) -> (r: usize)
        ensures
            r == self.resolver_model().pending,
    {
        self.resolver.count_pending_jobs()
    }

    /// How many workers are idle.
    pub fn idle_workers(&self) -> (r: usize)
        ensures
            r == crate::model::idle_count(self.resolver_model()),
    {
        self.resolver.idle_workers()
    }

    /// How many workers hold a lease.
    pub fn busy_workers(&self) -> (r: usize)
        ensures
            r == crate::model::busy_count(self.resolver_model()),
    {
        self.resolver.busy_workers()
    }

    /// Teardown, driven by the host when the pool's last owning reference
    /// goes away.  First the waiter queue is drained — the returned ids, in
    /// arrival order, are the requests the host must fail with
    /// `PoolTerminated`, so no queued caller is left hanging — and the
    /// resolver is closed against new submissions.  The host then terminates
    /// every worker unconditionally, busy or idle, without waiting for
    /// in-flight jobs: a hard stop, not a graceful drain.
    pub fn teardown(&mut self) -> (drained: Vec<u64>)
        requires
            old(self).wf(),
        ensures
            final(self).wf(),
            final(self).phase_spec() is Terminated,
            final(self).resolver_model() == spec_cancel(old(self).resolver_model()).0,
            drained@ == old(self).resolver_model().waiters,
            final(self).resolver_model().waiters.len() == 0,
    {
        let drained = self.resolver.cancel_pending_jobs();
        self.phase = Phase::Terminated;
        drained
    }
}

} // verus!
