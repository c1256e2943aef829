use edge_runtime_core::policy::{SupervisorPolicy, WorkerPoolPolicy};
use edge_runtime_core::pool::{fence_start, fence_step, AcquireResult, FenceError, FenceEvent, FenceStep, WorkerPool};
use edge_runtime_core::registry::{ActiveWorkerRegistry, WorkerId};

fn pool_with(policy: SupervisorPolicy) -> WorkerPool {
    WorkerPool::new(WorkerPoolPolicy::new(Some(policy), Some(4), None, 4))
}

#[test]
fn per_worker_requests_go_round_robin() {
    let path = "/srv/hello".to_string();
    let mut pool = pool_with(SupervisorPolicy::PerWorker);
    let plan = pool.create_user_worker(&path, false);
    assert_eq!(plan.reuse, None);
    assert!(plan.retired.is_empty());
    pool.add_user_worker(1, path.clone());
    assert_eq!(pool.create_user_worker(&path, false).reuse, Some(1));
    pool.add_user_worker(2, path.clone());
    assert_eq!(pool.create_user_worker(&path, false).reuse, Some(2));
    assert_eq!(pool.create_user_worker(&path, false).reuse, Some(1));
    assert_eq!(pool.create_user_worker(&path, false).reuse, Some(2));
}

#[test]
fn per_request_worker_serves_one_request_at_a_time() {
    let path = "/srv/hello".to_string();
    let mut pool = pool_with(SupervisorPolicy::PerRequest { oneshot: false });
    pool.add_user_worker(7, path.clone());
    // The worker is busy with the request it was created for.
    assert_eq!(pool.create_user_worker(&path, false).reuse, None);
    assert_eq!(pool.idle(7), Some(path.clone()));
    assert_eq!(pool.create_user_worker(&path, false).reuse, Some(7));
    assert_eq!(pool.create_user_worker(&path, false).reuse, None);
    // Going idle twice tells nobody the second time.
    assert_eq!(pool.idle(7), Some(path.clone()));
    assert_eq!(pool.idle(7), None);
}

#[test]
fn retired_workers_are_dropped_from_the_registry() {
    let path = "/srv/hello".to_string();
    let mut pool = pool_with(SupervisorPolicy::PerWorker);
    pool.add_user_worker(1, path.clone());
    pool.mark_retired(1);
    let plan = pool.create_user_worker(&path, false);
    assert_eq!(plan.reuse, None);
    assert_eq!(plan.retired, vec![1]);
    assert!(!pool.is_empty());
    assert_eq!(pool.shutdown(1), Some(path.clone()));
    assert!(pool.is_empty());
    assert_eq!(pool.shutdown(1), None);
}

#[test]
fn force_create_skips_the_registry_unless_oneshot() {
    let path = "/srv/hello".to_string();
    let mut pool = pool_with(SupervisorPolicy::PerWorker);
    pool.add_user_worker(1, path.clone());
    let plan = pool.create_user_worker(&path, true);
    assert!(plan.force_create);
    assert_eq!(plan.reuse, None);

    let mut oneshot = pool_with(SupervisorPolicy::oneshot());
    let plan = oneshot.create_user_worker(&path, true);
    assert!(!plan.force_create);
}

#[test]
fn send_request_needs_a_fence_only_per_request() {
    let path = "/srv/a".to_string();
    let mut per_worker = pool_with(SupervisorPolicy::PerWorker);
    per_worker.add_user_worker(3, path.clone());
    assert_eq!(per_worker.send_request(3), Some(false));
    assert_eq!(per_worker.send_request(4), None);
    let mut per_request = pool_with(SupervisorPolicy::PerRequest { oneshot: false });
    per_request.add_user_worker(3, path);
    assert_eq!(per_request.send_request(3), Some(true));
}

#[test]
fn the_pool_stops_when_asked_and_empty() {
    let path = "/srv/a".to_string();
    let mut pool = pool_with(SupervisorPolicy::PerWorker);
    assert!(pool.on_termination_requested());
    pool.add_user_worker(1, path);
    assert!(!pool.on_termination_requested());
    assert!(!pool.stop_after_shutdown(true));
    pool.shutdown(1);
    assert!(pool.stop_after_shutdown(true));
    assert!(!pool.stop_after_shutdown(false));
}

#[test]
fn fence_decisions() {
    assert_eq!(fence_start(AcquireResult::Acquired, false), FenceStep::Create { with_permit: true });
    assert_eq!(fence_start(AcquireResult::NoPermits, true), FenceStep::Create { with_permit: false });
    assert_eq!(fence_start(AcquireResult::NoPermits, false), FenceStep::Wait);
    assert_eq!(fence_step(FenceEvent::WorkerIdle), FenceStep::Resend);
    assert_eq!(
        fence_step(FenceEvent::WorkerGone { acquire: AcquireResult::Acquired }),
        FenceStep::Create { with_permit: true }
    );
    assert_eq!(fence_step(FenceEvent::WorkerGone { acquire: AcquireResult::NoPermits }), FenceStep::Wait);
    assert_eq!(fence_step(FenceEvent::Disconnected), FenceStep::Fail(FenceError::ChannelInvalid));
    assert_eq!(fence_step(FenceEvent::TimedOut), FenceStep::Fail(FenceError::NotInTime));
}

#[test]
fn registry_round_robin_and_removal() {
    let mut reg = ActiveWorkerRegistry::new();
    reg.insert(WorkerId { key: 10, available: true });
    reg.insert(WorkerId { key: 20, available: true });
    reg.insert(WorkerId { key: 10, available: true });
    assert_eq!(reg.mark_used_and_try_advance(SupervisorPolicy::PerWorker), Some(10));
    assert_eq!(reg.mark_used_and_try_advance(SupervisorPolicy::PerWorker), Some(20));
    assert_eq!(reg.mark_used_and_try_advance(SupervisorPolicy::PerWorker), Some(10));
    reg.remove(10);
    assert!(!reg.contains(10));
    assert!(reg.contains(20));
    assert_eq!(reg.mark_used_and_try_advance(SupervisorPolicy::PerWorker), Some(20));
}

#[test]
fn registry_per_request_takes_each_worker_once() {
    let policy = SupervisorPolicy::PerRequest { oneshot: false };
    let mut reg = ActiveWorkerRegistry::new();
    reg.insert(WorkerId { key: 1, available: true });
    reg.insert(WorkerId { key: 2, available: true });
    assert_eq!(reg.mark_used_and_try_advance(policy), Some(1));
    assert_eq!(reg.mark_used_and_try_advance(policy), Some(2));
    assert_eq!(reg.mark_used_and_try_advance(policy), None);
    assert!(reg.mark_idle(2, policy));
    assert!(!reg.mark_idle(2, policy));
    // The search starts over at the first worker, which is still busy.
    assert_eq!(reg.mark_used_and_try_advance(policy), None);
    assert!(reg.mark_idle(1, policy));
    assert_eq!(reg.mark_used_and_try_advance(policy), Some(1));
    assert_eq!(reg.mark_used_and_try_advance(policy), Some(2));
}

#[test]
fn shutting_down_undoes_adding() {
    let path = "/srv/undo".to_string();
    let mut pool = pool_with(SupervisorPolicy::PerWorker);
    pool.add_user_worker(11, path.clone());
    pool.add_user_worker(12, path.clone());
    assert_eq!(pool.shutdown(12), Some(path.clone()));
    assert_eq!(pool.active_workers.len(), 1);
    assert_eq!(pool.active_workers[0].registry.workers, vec![WorkerId { key: 11, available: true }]);
    assert_eq!(pool.user_workers.len(), 1);
    assert_eq!(pool.user_workers[0].key, 11);
}

#[test]
fn reuse_counts_the_request_handed_over() {
    let path = "/srv/demand".to_string();
    let mut pool = pool_with(SupervisorPolicy::PerWorker);
    pool.add_user_worker(21, path.clone());
    assert_eq!(pool.demand(21), Some(1));
    assert_eq!(pool.create_user_worker(&path, false).reuse, Some(21));
    assert_eq!(pool.demand(21), Some(2));
    assert_eq!(pool.create_user_worker(&path, true).reuse, None);
    assert_eq!(pool.demand(21), Some(2));
    pool.shutdown(21);
    assert_eq!(pool.demand(21), None);
}
