//! The availability resolver: the executable core of the pool.
//!
//! It tracks which workers are idle or busy, hands out an exclusive lease on
//! an idle worker per acquisition, queues acquisitions first-come-first-served
//! while the pool is saturated, counts unresolved jobs, and drains the queue
//! at shutdown.  Every operation is an atomic transaction on the private
//! state; each contract says that the operation follows the corresponding
//! transition of [`crate::model`] exactly.
//!
//! The host that embeds the pool drives the resolver: a [`Ticket`] stands for
//! a suspended acquisition the host must park, and the [`ReleaseEffect`] of a
//! completion tells the host which parked acquisition to resume, with which
//! [`Lease`].

use vstd::prelude::*;

use crate::model::busy_count;
use crate::model::busy_up_to;
use crate::model::idle_count;
use crate::model::lemma_busy_slot_counts;
use crate::model::lemma_busy_up_to_bounds;
use crate::model::lemma_cancel_preserves_wf;
use crate::model::lemma_complete_preserves_wf;
use crate::model::lemma_first_idle_is;
use crate::model::lemma_init_state_wf;
use crate::model::lemma_resolve_preserves_wf;
use crate::model::init_state;
use crate::model::spec_cancel;
use crate::model::spec_complete;
use crate::model::spec_resolve;
use crate::model::wf;
use crate::model::Model;
use crate::model::Release;
use crate::model::Resolution;

verus! {

/// The error kinds the pool reports.
#[derive(Clone, Copy, Debug, PartialEq, Eq, Structural)]
pub enum PoolError {
    /// A worker failed to initialize; the pool is left unusable.
    InitError,
    /// The acquisition was attempted, or was still queued, after shutdown
    /// had begun.
    PoolTerminated,
}

/// The exclusive right to dispatch one job to one worker, held from
/// acquisition until released by `notify_job_complete`.
#[derive(Clone, Copy, Debug, PartialEq, Eq, Structural)]
pub struct Lease {
    worker: usize,
    id: u64,
}

impl Lease {
    /// The leased worker's index.
    pub closed spec fn worker_spec(&self) -> int {
        self.worker as int
    }

    /// The id of the acquisition that holds the lease.
    pub closed spec fn id_spec(&self) -> int {
        self.id as int
    }

    /// The leased worker's index: where the host must dispatch the job.
    pub fn worker(&self) -> (w: usize)
        ensures
            w == self.worker_spec(),
    {
        self.worker
    }

    /// The lease's id.
    pub fn id(&self) -> (i: u64)
        ensures
            i == self.id_spec(),
    {
        self.id
    }
}

/// A suspended acquisition: the host parks the caller under this ticket's id
/// until a completion hands it a lease, or shutdown fails it.
#[derive(Clone, Copy, Debug, PartialEq, Eq, Structural)]
pub struct Ticket {
    id: u64,
}

impl Ticket {
    /// The suspended acquisition's id.
    pub closed spec fn id_spec(&self) -> int {
        self.id as int
    }

    /// The suspended acquisition's id.
    pub fn id(&self) -> (i: u64)
        ensures
            i == self.id_spec(),
    {
        self.id
    }
}

/// What an acquisition attempt came back with.
#[derive(Clone, Copy, Debug, PartialEq, Eq, Structural)]
pub enum Acquisition {
    /// An idle worker was leased at once.
    Granted(Lease),
    /// The pool was saturated: the request is queued under this ticket.
    Queued(Ticket),
}

/// What a completion notification asks of the host.
#[derive(Clone, Copy, Debug, PartialEq, Eq, Structural)]
pub enum ReleaseEffect {
    /// Resume the caller parked under the lease's id: the worker is its now.
    Handoff(Lease),
    /// No waiter was queued: the worker is idle again.
    Freed,
    /// The lease was not current (already released once): nothing changed.
    Stale,
}

/// The availability resolver.  See the module documentation.
pub struct Resolver {
    leases: Vec<Option<u64>>,
    waiters: Vec<u64>,
    next_id: u64,
    pending: usize,
    closed: bool,
}

impl View for Resolver {
    type V = Model;

    closed spec fn view(&self) -> Model {
        Model {
            leases: self.leases@,
            waiters: self.waiters@,
            next_id: self.next_id,
            pending: self.pending,
            closed: self.closed,
        }
    }
}

impl Resolver {
    /// A fresh resolver for `n` workers, all idle, nothing pending.
    pub fn new(n: usize) -> (r: Resolver)
        requires
            n >= 1,
        ensures
            r@ == init_state(n),
            wf(r@),
    {
        let leases: Vec<Option<u64>> = vec![None; n];
        let r = Resolver { leases, waiters: Vec::new(), next_id: 0, pending: 0, closed: false };
        proof {
            assert(r@.leases =~= init_state(n).leases);
            assert(r@.waiters =~= init_state(n).waiters);
            lemma_init_state_wf(n);
        }
        r
    }

    /// How many workers the resolver tracks.
    pub fn worker_count(&self) -> (n: usize)
        ensures
            n == self@.leases.len(),
    {
        self.leases.len()
    }

    /// Whether shutdown has begun.
    pub fn is_closed(&self) -> (c: bool)
        ensures
            c == self@.closed,
    {
        self.closed
    }

    /// Whether the id counter and the pending counter still have headroom:
    /// exactly the machine-word bounds `resolve_runnable` asks of its caller.
    pub fn has_counter_headroom(&self) -> (r: bool)
        ensures
            r == (self@.next_id < u64::MAX && self@.pending < usize::MAX),
    {
        self.next_id < u64::MAX && self.pending < usize::MAX
    }

    /// The number of jobs submitted but not yet resolved (neither completed
    /// nor cancelled).  Never negative; zero once every submission has
    /// completed or been cancelled.
    pub fn count_pending_jobs(&self) -> (r: usize)
        ensures
            r == self@.pending,
    {
        self.pending
    }

    /// One acquisition attempt for an incoming submission.  The submission is
    /// counted as pending from here on (unless rejected).  The first idle
    /// worker in id order is leased; with every worker busy the request joins
    /// the waiter queue in arrival order; after shutdown it is rejected with
    /// `PoolTerminated` and not counted.
    ///
    /// The two bounds in the `requires` only keep the id counter and the
    /// pending counter within their machine words.
    pub fn resolve_runnable(&mut self) -> (r: Result<Acquisition, PoolError>)
        requires
            wf(old(self)@),
            old(self)@.next_id < u64::MAX,
            old(self)@.pending < usize::MAX,
        ensures
            wf(final(self)@),
            final(self)@ == spec_resolve(old(self)@).0,
            match r {
                Ok(Acquisition::Granted(l)) => spec_resolve(old(self)@).1 == (Resolution::Leased {
                    worker: l.worker_spec(),
                    id: l.id_spec(),
                }),
                Ok(Acquisition::Queued(t)) => spec_resolve(old(self)@).1 == (Resolution::Suspended {
                    id: t.id_spec(),
                }),
                Err(e) => e == PoolError::PoolTerminated && spec_resolve(old(self)@).1
                    == Resolution::Rejected,
            },
    {
        if self.closed {
            return Err(PoolError::PoolTerminated);
        }
        let id = self.next_id;
        let n = self.leases.len();
        let mut w: usize = 0;
        while w < n
            invariant
                *self == *old(self),
                wf(self@),
                self@.next_id < u64::MAX,
                self@.pending < usize::MAX,
                !self@.closed,
                id == self@.next_id,
                n == self.leases.len(),
                w <= n,
                forall|j: int| #![trigger self.leases@[j]] 0 <= j < w ==> self.leases@[j] is Some,
            decreases n - w,
        {
            if self.leases[w].is_none() {
                proof {
                    lemma_first_idle_is(self.leases@, w as int);
                }
                self.leases[w] = Some(id);
                self.next_id = id + 1;
                self.pending = self.pending + 1;
                proof {
                    lemma_resolve_preserves_wf(old(self)@);
                }
                return Ok(Acquisition::Granted(Lease { worker: w, id }));
            }
            w = w + 1;
        }
        self.waiters.push(id);
        self.next_id = id + 1;
        self.pending = self.pending + 1;
        proof {
            lemma_resolve_preserves_wf(old(self)@);
            if crate::model::has_idle(old(self)@) {
                let wit = choose|x: int|
                    0 <= x < old(self)@.leases.len() && old(self)@.leases[x] is None;
                assert(old(self)@.leases[wit] is Some);
            }
        }
        Ok(Acquisition::Queued(Ticket { id }))
    }

    /// One completion notification: resolves the completing job.  If the
    /// lease is current, the job's worker is handed to the earliest waiter —
    /// staying busy — or goes idle when none is queued.  A lease that is no
    /// longer current (released once already) changes nothing: the
    /// double-release guard.  Never blocks, has no failure mode.
    pub fn notify_job_complete(&mut self, lease: Lease) -> (r: ReleaseEffect)
        requires
            wf(old(self)@),
        ensures
            wf(final(self)@),
            final(self)@ == spec_complete(old(self)@, lease.worker_spec(), lease.id_spec()).0,
            match r {
                ReleaseEffect::Handoff(l) => spec_complete(
                    old(self)@,
                    lease.worker_spec(),
                    lease.id_spec(),
                ).1 == (Release::Handoff { worker: l.worker_spec(), id: l.id_spec() })
                    && l.worker_spec() == lease.worker_spec(),
                ReleaseEffect::Freed => spec_complete(
                    old(self)@,
                    lease.worker_spec(),
                    lease.id_spec(),
                ).1 == Release::Freed,
                ReleaseEffect::Stale => spec_complete(
                    old(self)@,
                    lease.worker_spec(),
                    lease.id_spec(),
                ).1 == Release::Stale,
            },
    {
        proof {
            lemma_complete_preserves_wf(old(self)@, lease.worker_spec(), lease.id_spec());
        }
        let w = lease.worker;
        if w >= self.leases.len() {
            return ReleaseEffect::Stale;
        }
        let held = match self.leases[w] {
            Some(cur) => cur == lease.id,
            None => false,
        };
        if !held {
            return ReleaseEffect::Stale;
        }
        proof {
            lemma_busy_slot_counts(self.leases@, w as int);
        }
        self.pending = self.pending - 1;
        if self.waiters.len() > 0 {
            let t = self.waiters.remove(0);
            self.leases[w] = Some(t);
            proof {
                assert(self.waiters@ =~= old(self)@.waiters.subrange(
                    1,
                    old(self)@.waiters.len() as int,
                ));
            }
            ReleaseEffect::Handoff(Lease { worker: w, id: t })
        } else {
            self.leases[w] = None;
            ReleaseEffect::Freed
        }
    }

    /// Shutdown: close the resolver — every later acquisition is rejected —
    /// and drain the whole waiter queue, returned in arrival order so the
    /// host can fail each drained request with `PoolTerminated`.  Jobs
    /// already leased keep running and resolve through `notify_job_complete`.
    pub fn cancel_pending_jobs(&mut self) -> (drained: Vec<u64>)
        requires
            wf(old(self)@),
        ensures
            wf(final(self)@),
            final(self)@ == spec_cancel(old(self)@).0,
            drained@ == spec_cancel(old(self)@).1,
    {
        proof {
            lemma_cancel_preserves_wf(old(self)@);
            lemma_busy_up_to_bounds(old(self)@.leases, old(self)@.leases.len() as int);
        }
        self.closed = true;
        let mut drained: Vec<u64> = Vec::new();
        std::mem::swap(&mut drained, &mut self.waiters);
        self.pending = self.pending - drained.len();
        drained
    }

    /// How many workers are currently idle.
    pub fn idle_workers(&self) -> (r: usize)
        ensures
            r == idle_count(self@),
    {
        let n = self.leases.len();
        let mut busy: usize = 0;
        let mut w: usize = 0;
        while w < n
            invariant
                n == self.leases.len(),
                w <= n,
                busy == busy_up_to(self.leases@, w as int),
                busy <= w,
            decreases n - w,
        {
            if self.leases[w].is_some() {
                busy = busy + 1;
            }
            w = w + 1;
        }
        n - busy
    }

    /// How many workers currently hold a lease.
    pub fn busy_workers(&self) -> (r: usize)
        ensures
            r == busy_count(self@),
    {
        let n = self.leases.len();
        let idle = self.idle_workers();
        proof {
            lemma_busy_up_to_bounds(self.leases@, self.leases@.len() as int);
        }
        n - idle
    }
}

} // verus!
