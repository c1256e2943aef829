use edge_runtime_core::policy::{CPUTimerParam, SupervisorPolicy};
use edge_runtime_core::supervisor::{
    per_request_wall_clock, per_worker_wall_clock, Finish, PerRequestSupervisor, PerWorkerSupervisor,
    ShutdownReason, SupervisorEvent,
};

const MS: i64 = 1_000_000;

#[test]
fn per_worker_hard_limit_terminates() {
    let mut s = PerWorkerSupervisor::new(CPUTimerParam::new(50, 100), 1000);
    let a = s.step(SupervisorEvent::CpuEnter, 0);
    assert!(a.reset_cpu_timer);
    let a = s.step(SupervisorEvent::CpuLeave { accumulated: 120 * MS, diff: 120 * MS }, 0);
    assert!(a.terminate);
    assert_eq!(a.finish, Some(Finish { reason: ShutdownReason::CPUTime, cpu_time_ms: 120 }));
    assert!(a.early_retire);
}

#[test]
fn per_worker_soft_limit_retires_then_drops_when_answered() {
    let mut s = PerWorkerSupervisor::new(CPUTimerParam::new(50, 100), 1000);
    s.step(SupervisorEvent::CpuEnter, 1);
    let a = s.step(SupervisorEvent::CpuLeave { accumulated: 60 * MS, diff: 60 * MS }, 1);
    assert!(a.early_retire);
    assert!(!a.terminate);
    assert!(s.cpu_time_soft_limit_reached);
    // Reaching the soft limit again retires nothing more.
    s.step(SupervisorEvent::CpuEnter, 1);
    let a = s.step(SupervisorEvent::CpuLeave { accumulated: 70 * MS, diff: 10 * MS }, 1);
    assert!(!a.early_retire);
    let a = s.step(SupervisorEvent::RequestEnd, 1);
    assert!(a.terminate);
    assert_eq!(a.finish, Some(Finish { reason: ShutdownReason::EarlyDrop, cpu_time_ms: 70 }));
}

#[test]
fn per_worker_request_end_before_the_soft_limit_sends_idle() {
    let mut s = PerWorkerSupervisor::new(CPUTimerParam::new(50, 100), 1000);
    let a = s.step(SupervisorEvent::RequestEnd, 1);
    assert!(a.send_idle);
    assert_eq!(s.req_ack_count, 1);
}

#[test]
fn per_worker_beforeunload_is_armed_once() {
    let mut s = PerWorkerSupervisor::new(CPUTimerParam::new(0, 0), 1000);
    let a = s.step(SupervisorEvent::BeforeUnloadAlert, 0);
    assert!(a.request_beforeunload && !a.terminate);
    assert!(s.is_wall_clock_beforeunload_armed);
}

#[test]
fn per_worker_wall_clock_alerts_three_times() {
    let mut s = PerWorkerSupervisor::new(CPUTimerParam::new(0, 0), 1000);
    let a = s.step(SupervisorEvent::WallClockAlert, 0);
    assert!(!a.early_retire && !a.terminate);
    let a = s.step(SupervisorEvent::WallClockAlert, 0);
    assert!(a.early_retire && !a.terminate);
    let a = s.step(SupervisorEvent::WallClockAlert, 0);
    assert!(a.terminate);
    assert_eq!(a.finish, Some(Finish { reason: ShutdownReason::WallClockTime, cpu_time_ms: 0 }));
}

#[test]
fn per_worker_memory_and_termination() {
    let mut s = PerWorkerSupervisor::new(CPUTimerParam::new(0, 0), 0);
    let a = s.step(SupervisorEvent::MemoryLimit, 0);
    assert!(a.terminate);
    assert_eq!(a.finish.unwrap().reason, ShutdownReason::Memory);
    let a = s.step(SupervisorEvent::SuperviseCancelled, 0);
    assert!(!a.terminate);
    assert_eq!(a.finish.unwrap().reason, ShutdownReason::TerminationRequested);
}

#[test]
fn per_request_cycle_goes_idle_between_requests() {
    let mut s = PerRequestSupervisor::new(CPUTimerParam::new(50, 100), 1000, false);
    let a = s.step(SupervisorEvent::RequestStart, 1);
    assert!(a.release_fence && a.reset_cpu_timer);
    assert!(s.req_start_ack);
    let a = s.step(SupervisorEvent::RequestEnd, 1);
    assert!(a.send_idle && a.reset_wall_clock && !a.terminate);
    assert!(!s.req_start_ack);
    assert_eq!(s.req_ack_count, 1);
}

#[test]
fn oneshot_terminates_after_its_request() {
    let mut s = PerRequestSupervisor::new(CPUTimerParam::new(50, 100), 1000, true);
    s.step(SupervisorEvent::RequestStart, 1);
    s.step(SupervisorEvent::CpuEnter, 1);
    s.step(SupervisorEvent::CpuLeave { accumulated: 30 * MS, diff: 30 * MS }, 1);
    let a = s.step(SupervisorEvent::RequestEnd, 1);
    assert!(a.terminate);
    assert_eq!(a.finish, Some(Finish { reason: ShutdownReason::EarlyDrop, cpu_time_ms: 30 }));
}

#[test]
fn per_request_cpu_budget_is_per_request() {
    let mut s = PerRequestSupervisor::new(CPUTimerParam::new(50, 100), 1000, false);
    s.step(SupervisorEvent::RequestStart, 1);
    s.step(SupervisorEvent::CpuEnter, 1);
    let a = s.step(SupervisorEvent::CpuLeave { accumulated: 90 * MS, diff: 90 * MS }, 1);
    assert!(!a.terminate);
    s.step(SupervisorEvent::RequestEnd, 1);
    // The next request starts with a fresh budget.
    s.step(SupervisorEvent::RequestStart, 2);
    s.step(SupervisorEvent::CpuEnter, 2);
    let a = s.step(SupervisorEvent::CpuLeave { accumulated: 180 * MS, diff: 90 * MS }, 2);
    assert!(!a.terminate);
    s.step(SupervisorEvent::CpuEnter, 2);
    let a = s.step(SupervisorEvent::CpuLeave { accumulated: 200 * MS, diff: 20 * MS }, 2);
    assert!(a.terminate);
    assert_eq!(a.finish, Some(Finish { reason: ShutdownReason::CPUTime, cpu_time_ms: 200 }));
}

#[test]
fn per_request_wall_clock_resets_while_requests_are_pending() {
    let mut s = PerRequestSupervisor::new(CPUTimerParam::new(0, 0), 1000, false);
    let a = s.step(SupervisorEvent::WallClockAlert, 1);
    assert!(a.reset_wall_clock && !a.terminate);
    let a = s.step(SupervisorEvent::WallClockAlert, 0);
    assert!(a.terminate);
    assert_eq!(a.finish.unwrap().reason, ShutdownReason::WallClockTime);
}

#[test]
fn wall_clock_settings() {
    assert_eq!(per_worker_wall_clock(0), (true, 2, 1));
    assert_eq!(per_worker_wall_clock(1000), (false, 1000, 500));
    assert_eq!(per_request_wall_clock(0), (true, 1));
    assert_eq!(per_request_wall_clock(30), (false, 30));
}

#[test]
fn cpu_timer_settings_by_policy() {
    let cpu = CPUTimerParam::new(50, 100);
    assert_eq!(cpu.timer_settings(SupervisorPolicy::PerWorker), Some((50, 100)));
    assert_eq!(cpu.timer_settings(SupervisorPolicy::PerRequest { oneshot: false }), Some((100, 0)));
    assert_eq!(CPUTimerParam::new(0, 0).timer_settings(SupervisorPolicy::PerWorker), None);
    assert_eq!(cpu.limits(), (50, 100));
    assert!(!cpu.is_disabled());
}

#[test]
fn every_finish_retires_the_worker() {
    let mut s = PerWorkerSupervisor::new(CPUTimerParam::new(0, 0), 0);
    let a = s.step(SupervisorEvent::SuperviseCancelled, 0);
    assert!(a.finish.is_some() && a.early_retire && !a.terminate);
    let mut r = PerRequestSupervisor::new(CPUTimerParam::new(0, 0), 0, false);
    let a = r.step(SupervisorEvent::TerminationRequested, 0);
    assert!(a.finish.is_some() && a.early_retire && a.terminate);
    let a = r.step(SupervisorEvent::MemoryLimit, 0);
    assert!(a.early_retire);
}
