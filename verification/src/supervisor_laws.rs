//! What holds of the supervisors across events.
use vstd::prelude::*;
use crate::supervisor::{
    Finish, PerWorkerSupervisor, PerRequestSupervisor, SupervisorEvent, ShutdownReason, ns_to_ms,
};

verus! {

/// Per worker: leaving the isolate with CPU time at or above the hard limit
/// (with limits on) terminates the worker for CPU time.
pub proof fn lemma_per_worker_hard_limit(s: PerWorkerSupervisor, accumulated: i64, diff: i64, demand: usize)
    requires
        s.accepts(SupervisorEvent::CpuLeave { accumulated, diff }),
        !(s.cpu.soft_limit_ms == 0 && s.cpu.hard_limit_ms == 0),
        ns_to_ms(accumulated) as i64 >= s.cpu.hard_limit_ms as i64,
    ensures
        ({
            let a = s.next(SupervisorEvent::CpuLeave { accumulated, diff }, demand).1;
            &&& a.terminate
            &&& a.finish matches Some(f) && f.reason == ShutdownReason::CPUTime
        }),
{
}

/// Per worker: once the soft CPU limit is reached it stays reached, the count
/// of answered requests never goes down, and from then on, short of ending
/// supervision, only a wall clock alert retires the worker early.
pub proof fn lemma_per_worker_soft_limit_latches(s: PerWorkerSupervisor, e: SupervisorEvent, demand: usize)
    requires
        s.accepts(e),
    ensures
        s.cpu_time_soft_limit_reached ==> s.next(e, demand).0.cpu_time_soft_limit_reached,
        s.next(e, demand).0.req_ack_count >= s.req_ack_count,
        s.cpu_time_soft_limit_reached && s.next(e, demand).1.early_retire && s.next(e, demand).1.finish is None
            ==> e == SupervisorEvent::WallClockAlert,
{
}

/// Per worker: with the wall clock on, the first alert (which fires at once)
/// does nothing, the second retires the worker early, the third terminates
/// it for wall clock time.
pub proof fn lemma_per_worker_wall_clock(s: PerWorkerSupervisor, d1: usize, d2: usize, d3: usize)
    requires
        !s.wall_clock_disabled,
        s.wall_clock_alerts == 0,
    ensures
        ({
            let (s1, a1) = s.next(SupervisorEvent::WallClockAlert, d1);
            let (s2, a2) = s1.next(SupervisorEvent::WallClockAlert, d2);
            let (s3, a3) = s2.next(SupervisorEvent::WallClockAlert, d3);
            &&& !a1.early_retire && !a1.terminate && a1.finish is None
            &&& a2.early_retire && !a2.terminate && a2.finish is None
            &&& a3.terminate
            &&& a3.finish matches Some(f) && f.reason == ShutdownReason::WallClockTime
        }),
{
}

/// Per worker: supervision always ends with the worker retired, and by
/// terminating the isolate unless the supervisor itself was cancelled.
pub proof fn lemma_per_worker_finish_terminates(s: PerWorkerSupervisor, e: SupervisorEvent, demand: usize)
    requires
        s.accepts(e),
        s.next(e, demand).1.finish is Some,
    ensures
        s.next(e, demand).1.early_retire,
        e != SupervisorEvent::SuperviseCancelled ==> s.next(e, demand).1.terminate,
{
}

/// Per request: supervision always ends with the worker retired, and by
/// terminating the isolate unless the supervisor itself was cancelled; an
/// action that terminates always ends it.
pub proof fn lemma_per_request_finish_terminates(s: PerRequestSupervisor, e: SupervisorEvent, demand: usize)
    requires
        s.accepts(e),
    ensures
        s.next(e, demand).1.finish is Some && e != SupervisorEvent::SuperviseCancelled ==> s.next(e, demand).1.terminate,
        s.next(e, demand).1.finish is Some ==> s.next(e, demand).1.early_retire,
        s.next(e, demand).1.terminate ==> s.next(e, demand).1.finish is Some,
{
}

/// Per request, outside `oneshot`: a request that starts and ends leaves the
/// worker alive and idle, ready for the next request, with one more request
/// answered and the wall clock started over.
pub proof fn lemma_per_request_cycle(s: PerRequestSupervisor, d1: usize, d2: usize)
    requires
        !s.oneshot,
        !s.req_start_ack,
        s.req_ack_count < usize::MAX,
    ensures
        ({
            let (s1, a1) = s.next(SupervisorEvent::RequestStart, d1);
            let (s2, a2) = s1.next(SupervisorEvent::RequestEnd, d2);
            &&& a1.release_fence && a1.finish is None && !a1.terminate
            &&& s1.cpu_usage_ms == 0
            &&& a2.send_idle && a2.reset_wall_clock && a2.finish is None && !a2.terminate
            &&& !s2.req_start_ack
            &&& s2.req_ack_count == s.req_ack_count + 1
        }),
{
}

/// Per request, under `oneshot`: the first request that ends terminates the
/// worker with an early drop.
pub proof fn lemma_oneshot_single_request(s: PerRequestSupervisor, d1: usize, d2: usize)
    requires
        s.oneshot,
        !s.req_start_ack,
        s.req_ack_count < usize::MAX,
    ensures
        ({
            let (s1, a1) = s.next(SupervisorEvent::RequestStart, d1);
            let (s2, a2) = s1.next(SupervisorEvent::RequestEnd, d2);
            &&& a1.finish is None
            &&& a2.terminate
            &&& a2.finish matches Some(f) && f.reason == ShutdownReason::EarlyDrop
        }),
{
}

/// Per request: the CPU budget is per request; a request starts with none
/// used, and a CPU alarm during a request while in the isolate terminates
/// the worker for CPU time.
pub proof fn lemma_per_request_cpu_budget(s: PerRequestSupervisor, d: usize)
    requires
        s.is_worker_entered,
        !s.req_start_ack,
    ensures
        s.next(SupervisorEvent::RequestStart, d).0.cpu_usage_ms == 0,
        ({
            let s1 = s.next(SupervisorEvent::RequestStart, d).0;
            let a = s1.next(SupervisorEvent::CpuAlarm, d).1;
            &&& a.terminate
            &&& a.finish matches Some(f) && f.reason == ShutdownReason::CPUTime
        }),
{
}

/// Per worker, on a CPU alarm: outside the isolate nothing happens; inside
/// it, the first alarm marks the soft limit reached and retires the worker
/// (terminating it at once when every request handed to it was answered),
/// and an alarm past the soft limit terminates it for CPU time.
pub proof fn lemma_per_worker_cpu_alarm(s: PerWorkerSupervisor, demand: usize)
    ensures
        ({
            let (s1, a) = s.next(SupervisorEvent::CpuAlarm, demand);
            &&& !s.is_worker_entered ==> s1 == s && !a.terminate && !a.early_retire && a.finish is None
            &&& s.is_worker_entered && !s.cpu_time_soft_limit_reached ==> s1.cpu_time_soft_limit_reached
                && a.early_retire && (a.terminate <==> s.req_ack_count == demand)
            &&& s.is_worker_entered && s.cpu_time_soft_limit_reached ==> a.terminate && a.early_retire
                && a.finish == Some(Finish { reason: ShutdownReason::CPUTime, cpu_time_ms: s.cpu_usage_ms })
        }),
{
}

/// Per request, on a wall clock alert: a oneshot worker, or one that has
/// answered every request handed to it, is terminated for wall clock time;
/// any other worker only has its wall clock started over.
pub proof fn lemma_per_request_wall_clock_alert(s: PerRequestSupervisor, demand: usize)
    ensures
        ({
            let (s1, a) = s.next(SupervisorEvent::WallClockAlert, demand);
            &&& (s.oneshot || s.req_ack_count == demand) ==> a.terminate && a.early_retire
                && a.finish == Some(Finish { reason: ShutdownReason::WallClockTime, cpu_time_ms: s.cpu_usage_accumulated_ms })
            &&& !(s.oneshot || s.req_ack_count == demand) ==> s1 == s && a.reset_wall_clock && !a.terminate
                && !a.early_retire && a.finish is None
        }),
{
}

/// Per worker, on leaving the isolate: the CPU time becomes the accumulated
/// time in milliseconds; with limits on, reaching the hard limit terminates
/// the worker for CPU time, and first reaching the soft limit below it
/// retires the worker (terminating it at once, as an early drop, when every
/// request handed to it was answered); otherwise nothing happens.
pub proof fn lemma_per_worker_cpu_leave(s: PerWorkerSupervisor, accumulated: i64, diff: i64, demand: usize)
    ensures
        ({
            let (s1, a) = s.next(SupervisorEvent::CpuLeave { accumulated, diff }, demand);
            let usage = ns_to_ms(accumulated) as i64;
            let on = !(s.cpu.soft_limit_ms == 0 && s.cpu.hard_limit_ms == 0);
            &&& s1.cpu_usage_ms == usage && !s1.is_worker_entered
            &&& !on ==> !a.terminate && !a.early_retire && a.finish is None
            &&& on && usage >= s.cpu.hard_limit_ms as i64 ==> a.terminate && a.early_retire
                && a.finish == Some(Finish { reason: ShutdownReason::CPUTime, cpu_time_ms: usage })
            &&& on && usage < s.cpu.hard_limit_ms as i64 && usage >= s.cpu.soft_limit_ms as i64 && !s.cpu_time_soft_limit_reached
                ==> s1.cpu_time_soft_limit_reached && a.early_retire
                && (s.req_ack_count == demand ==> a.terminate
                    && a.finish == Some(Finish { reason: ShutdownReason::EarlyDrop, cpu_time_ms: usage }))
                && (s.req_ack_count != demand ==> !a.terminate && a.finish is None)
            &&& on && usage < s.cpu.hard_limit_ms as i64 && (usage < s.cpu.soft_limit_ms as i64 || s.cpu_time_soft_limit_reached)
                ==> !a.terminate && !a.early_retire && a.finish is None
        }),
{
}

/// Per worker, on an answered request: the count goes up by one; before the
/// soft CPU limit the pool is told the worker is idle; past it, the worker
/// is terminated as an early drop once every request handed to it is
/// answered, and is left alone before that.
pub proof fn lemma_per_worker_request_end(s: PerWorkerSupervisor, demand: usize)
    requires
        s.req_ack_count < usize::MAX,
    ensures
        ({
            let (s1, a) = s.next(SupervisorEvent::RequestEnd, demand);
            &&& s1.req_ack_count == s.req_ack_count + 1
            &&& !s.cpu_time_soft_limit_reached ==> a.send_idle && !a.terminate && a.finish is None
            &&& s.cpu_time_soft_limit_reached && s.req_ack_count + 1 == demand ==> !a.send_idle && a.terminate
                && a.finish == Some(Finish { reason: ShutdownReason::EarlyDrop, cpu_time_ms: s.cpu_usage_ms })
            &&& s.cpu_time_soft_limit_reached && s.req_ack_count + 1 != demand ==> !a.send_idle && !a.terminate
                && a.finish is None
        }),
{
}

/// Per worker: the memory limit and a termination request terminate the
/// worker for that reason; the supervisor being cancelled ends supervision
/// without interrupting the isolate.
pub proof fn lemma_per_worker_other_ends(s: PerWorkerSupervisor, demand: usize)
    ensures
        s.next(SupervisorEvent::MemoryLimit, demand).1.terminate,
        s.next(SupervisorEvent::MemoryLimit, demand).1.finish
            == Some(Finish { reason: ShutdownReason::Memory, cpu_time_ms: s.cpu_usage_ms }),
        s.next(SupervisorEvent::TerminationRequested, demand).1.terminate,
        s.next(SupervisorEvent::TerminationRequested, demand).1.finish
            == Some(Finish { reason: ShutdownReason::TerminationRequested, cpu_time_ms: s.cpu_usage_ms }),
        !s.next(SupervisorEvent::SuperviseCancelled, demand).1.terminate,
        s.next(SupervisorEvent::SuperviseCancelled, demand).1.finish
            == Some(Finish { reason: ShutdownReason::TerminationRequested, cpu_time_ms: s.cpu_usage_ms }),
{
}

/// Per request, on the CPU: an alarm terminates the worker for CPU time
/// exactly when it is in the isolate during a request; leaving the isolate
/// adds the time spent to the request's CPU time and, with limits on,
/// terminates the worker for CPU time exactly when that reaches the hard
/// limit.
pub proof fn lemma_per_request_cpu(s: PerRequestSupervisor, accumulated: i64, diff: i64, demand: usize)
    requires
        i64::MIN <= s.cpu_usage_ms + ns_to_ms(diff) <= i64::MAX,
    ensures
        ({
            let a = s.next(SupervisorEvent::CpuAlarm, demand).1;
            &&& a.terminate <==> (s.is_worker_entered && s.req_start_ack)
            &&& a.terminate ==> a.finish == Some(Finish { reason: ShutdownReason::CPUTime, cpu_time_ms: s.cpu_usage_accumulated_ms })
            &&& !a.terminate ==> a.finish is None
        }),
        ({
            let (s1, a) = s.next(SupervisorEvent::CpuLeave { accumulated, diff }, demand);
            let on = !(s.cpu.soft_limit_ms == 0 && s.cpu.hard_limit_ms == 0);
            &&& s1.cpu_usage_ms == s.cpu_usage_ms + ns_to_ms(diff)
            &&& s1.cpu_usage_accumulated_ms == ns_to_ms(accumulated) as i64
            &&& a.terminate <==> (on && s1.cpu_usage_ms >= s.cpu.hard_limit_ms as i64)
            &&& a.terminate ==> a.finish == Some(Finish { reason: ShutdownReason::CPUTime, cpu_time_ms: s1.cpu_usage_accumulated_ms })
        }),
{
}

/// Per request: the memory limit and a termination request terminate the
/// worker for that reason, whatever its state.
pub proof fn lemma_per_request_other_ends(s: PerRequestSupervisor, demand: usize)
    ensures
        s.next(SupervisorEvent::MemoryLimit, demand).1.terminate,
        s.next(SupervisorEvent::MemoryLimit, demand).1.finish
            == Some(Finish { reason: ShutdownReason::Memory, cpu_time_ms: s.cpu_usage_accumulated_ms }),
        s.next(SupervisorEvent::TerminationRequested, demand).1.terminate,
        s.next(SupervisorEvent::TerminationRequested, demand).1.finish
            == Some(Finish { reason: ShutdownReason::TerminationRequested, cpu_time_ms: s.cpu_usage_accumulated_ms }),
{
}

} // verus!
