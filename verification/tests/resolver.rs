use wasm_mt_pool::Acquisition;
use wasm_mt_pool::Lease;
use wasm_mt_pool::PoolError;
use wasm_mt_pool::ReleaseEffect;
use wasm_mt_pool::Resolver;
use wasm_mt_pool::Ticket;

fn expect_granted(r: Result<Acquisition, PoolError>) -> Lease {
    match r {
        Ok(Acquisition::Granted(lease)) => lease,
        other => panic!("expected an immediate grant, got {:?}", other),
    }
}

fn expect_queued(r: Result<Acquisition, PoolError>) -> Ticket {
    match r {
        Ok(Acquisition::Queued(ticket)) => ticket,
        other => panic!("expected the request to queue, got {:?}", other),
    }
}

fn expect_handoff(e: ReleaseEffect) -> Lease {
    match e {
        ReleaseEffect::Handoff(lease) => lease,
        other => panic!("expected a handoff to a waiter, got {:?}", other),
    }
}

#[test]
fn under_capacity_all_granted() {
    let mut r = Resolver::new(3);
    let a = expect_granted(r.resolve_runnable());
    let b = expect_granted(r.resolve_runnable());
    let c = expect_granted(r.resolve_runnable());
    assert_eq!(a.worker(), 0);
    assert_eq!(b.worker(), 1);
    assert_eq!(c.worker(), 2);
    assert_eq!(r.count_pending_jobs(), 3);
    assert_eq!(r.idle_workers(), 0);
    assert_eq!(r.busy_workers(), 3);
}

#[test]
fn pending_counts_until_first_completion() {
    let mut r = Resolver::new(4);
    let a = expect_granted(r.resolve_runnable());
    let _b = expect_granted(r.resolve_runnable());
    assert_eq!(r.count_pending_jobs(), 2);
    assert!(matches!(r.notify_job_complete(a), ReleaseEffect::Freed));
    assert_eq!(r.count_pending_jobs(), 1);
}

#[test]
fn over_capacity_grants_fifo_as_workers_free_up() {
    let mut r = Resolver::new(2);
    let a = expect_granted(r.resolve_runnable());
    let b = expect_granted(r.resolve_runnable());
    let t2 = expect_queued(r.resolve_runnable());
    let t3 = expect_queued(r.resolve_runnable());
    let t4 = expect_queued(r.resolve_runnable());
    assert_eq!(r.count_pending_jobs(), 5);
    assert_eq!(r.idle_workers(), 0);
    assert!(t2.id() < t3.id() && t3.id() < t4.id());

    // workers free up out of queue order; grants still follow arrival order
    let g2 = expect_handoff(r.notify_job_complete(b));
    assert_eq!(g2.id(), t2.id());
    assert_eq!(g2.worker(), b.worker());
    let g3 = expect_handoff(r.notify_job_complete(a));
    assert_eq!(g3.id(), t3.id());
    assert_eq!(g3.worker(), a.worker());
    let g4 = expect_handoff(r.notify_job_complete(g2));
    assert_eq!(g4.id(), t4.id());
    assert_eq!(r.count_pending_jobs(), 2);
}

#[test]
fn pending_returns_to_zero_after_full_drain() {
    let mut r = Resolver::new(2);
    let a = expect_granted(r.resolve_runnable());
    let b = expect_granted(r.resolve_runnable());
    let _t = expect_queued(r.resolve_runnable());
    assert_eq!(r.count_pending_jobs(), 3);
    let g = expect_handoff(r.notify_job_complete(a));
    assert!(matches!(r.notify_job_complete(b), ReleaseEffect::Freed));
    assert!(matches!(r.notify_job_complete(g), ReleaseEffect::Freed));
    assert_eq!(r.count_pending_jobs(), 0);
    assert_eq!(r.idle_workers(), 2);
}

#[test]
fn teardown_fails_every_queued_request() {
    let mut r = Resolver::new(1);
    let running = expect_granted(r.resolve_runnable());
    let t1 = expect_queued(r.resolve_runnable());
    let t2 = expect_queued(r.resolve_runnable());
    assert_eq!(r.count_pending_jobs(), 3);

    let drained = r.cancel_pending_jobs();
    assert_eq!(drained, vec![t1.id(), t2.id()]);
    // only the leased job is still pending; no queued request is left hanging
    assert_eq!(r.count_pending_jobs(), 1);
    assert!(r.is_closed());

    // acquisitions after shutdown fail immediately
    assert_eq!(r.resolve_runnable(), Err(PoolError::PoolTerminated));

    // the already-leased job still resolves normally, and nobody waits for it
    assert!(matches!(r.notify_job_complete(running), ReleaseEffect::Freed));
    assert_eq!(r.count_pending_jobs(), 0);
}

#[test]
fn cancelling_twice_drains_nothing_more() {
    let mut r = Resolver::new(1);
    let _running = expect_granted(r.resolve_runnable());
    let t = expect_queued(r.resolve_runnable());
    assert_eq!(r.cancel_pending_jobs(), vec![t.id()]);
    assert_eq!(r.cancel_pending_jobs(), Vec::<u64>::new());
    assert_eq!(r.count_pending_jobs(), 1);
}

#[test]
fn waiter_served_before_newcomer() {
    let mut r = Resolver::new(1);
    let a = expect_granted(r.resolve_runnable());
    let b = expect_queued(r.resolve_runnable());
    // A completes: B, already waiting, gets the worker at once ...
    let granted_b = expect_handoff(r.notify_job_complete(a));
    assert_eq!(granted_b.id(), b.id());
    // ... and a newer request C queues behind, under a later id
    let c = expect_queued(r.resolve_runnable());
    assert!(b.id() < c.id());
}

#[test]
fn double_release_is_detected_as_stale() {
    let mut r = Resolver::new(2);
    let a = expect_granted(r.resolve_runnable());
    assert!(matches!(r.notify_job_complete(a), ReleaseEffect::Freed));
    assert!(matches!(r.notify_job_complete(a), ReleaseEffect::Stale));
    // the idle/busy split still partitions the registry: no slot freed twice
    assert_eq!(r.idle_workers() + r.busy_workers(), 2);
    assert_eq!(r.count_pending_jobs(), 0);
}

#[test]
fn double_release_with_reassigned_worker_is_stale() {
    let mut r = Resolver::new(1);
    let a = expect_granted(r.resolve_runnable());
    let b = expect_queued(r.resolve_runnable());
    let granted_b = expect_handoff(r.notify_job_complete(a));
    assert_eq!(granted_b.id(), b.id());
    // the worker is busy again, for B; A's lease must not free it
    assert!(matches!(r.notify_job_complete(a), ReleaseEffect::Stale));
    assert_eq!(r.busy_workers(), 1);
    assert_eq!(r.idle_workers() + r.busy_workers(), 1);
    assert_eq!(r.count_pending_jobs(), 1);
}

#[test]
fn smallest_pool_cycles() {
    let mut r = Resolver::new(1);
    assert_eq!(r.worker_count(), 1);
    for _ in 0..3 {
        let lease = expect_granted(r.resolve_runnable());
        assert_eq!(lease.worker(), 0);
        assert!(matches!(r.notify_job_complete(lease), ReleaseEffect::Freed));
    }
    assert_eq!(r.count_pending_jobs(), 0);
}
