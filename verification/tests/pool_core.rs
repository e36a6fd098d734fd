use wasm_mt_pool::Acquisition;
use wasm_mt_pool::PoolCore;
use wasm_mt_pool::PoolError;
use wasm_mt_pool::ReleaseEffect;

#[test]
fn lifecycle_init_submit_complete_teardown() {
    let mut pool = PoolCore::new(2);
    assert_eq!(pool.worker_count(), 2);
    assert_eq!(pool.worker_ids(), vec![0, 1]);

    pool.mark_initialized();
    let lease = match pool.begin_submission() {
        Ok(Acquisition::Granted(lease)) => lease,
        other => panic!("expected a grant from an idle pool, got {:?}", other),
    };
    assert_eq!(lease.worker(), 0);
    assert_eq!(pool.count_pending_jobs(), 1);
    assert_eq!(pool.busy_workers(), 1);

    assert!(matches!(pool.complete_submission(lease), ReleaseEffect::Freed));
    assert_eq!(pool.count_pending_jobs(), 0);

    let drained = pool.teardown();
    assert!(drained.is_empty());
    assert_eq!(pool.begin_submission(), Err(PoolError::PoolTerminated));
}

#[test]
fn failed_initialization_leaves_pool_unusable() {
    let mut pool = PoolCore::new(3);
    pool.mark_init_failed();
    assert_eq!(pool.begin_submission(), Err(PoolError::PoolTerminated));
    assert_eq!(pool.count_pending_jobs(), 0);
}

#[test]
fn teardown_drains_queued_submissions_in_order() {
    let mut pool = PoolCore::new(1);
    pool.mark_initialized();
    let running = match pool.begin_submission() {
        Ok(Acquisition::Granted(lease)) => lease,
        other => panic!("expected a grant, got {:?}", other),
    };
    let first = match pool.begin_submission() {
        Ok(Acquisition::Queued(ticket)) => ticket,
        other => panic!("expected the pool to be saturated, got {:?}", other),
    };
    let second = match pool.begin_submission() {
        Ok(Acquisition::Queued(ticket)) => ticket,
        other => panic!("expected the pool to be saturated, got {:?}", other),
    };
    assert_eq!(pool.count_pending_jobs(), 3);

    let drained = pool.teardown();
    assert_eq!(drained, vec![first.id(), second.id()]);
    assert_eq!(pool.count_pending_jobs(), 1);

    // the in-flight job is not interrupted by the queue drain; it resolves
    // through the normal completion path
    assert!(matches!(pool.complete_submission(running), ReleaseEffect::Freed));
    assert_eq!(pool.count_pending_jobs(), 0);
}

#[test]
fn completion_after_teardown_keeps_accounting_consistent() {
    let mut pool = PoolCore::new(2);
    pool.mark_initialized();
    let lease = match pool.begin_submission() {
        Ok(Acquisition::Granted(lease)) => lease,
        other => panic!("expected a grant, got {:?}", other),
    };
    pool.teardown();
    assert!(matches!(pool.complete_submission(lease), ReleaseEffect::Freed));
    assert!(matches!(pool.complete_submission(lease), ReleaseEffect::Stale));
    assert_eq!(pool.idle_workers() + pool.busy_workers(), 2);
    assert_eq!(pool.count_pending_jobs(), 0);
}
