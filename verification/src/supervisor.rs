//! The supervisors of user worker isolates, as state machines: each takes
//! what happened (an event) and gives the next state and what to do.
use vstd::prelude::*;
use crate::policy::CPUTimerParam;

verus! {

/// Why a worker was shut down.
#[derive(Debug, Clone, Copy, PartialEq, Eq, Structural)]
pub enum ShutdownReason {
    EarlyDrop,
    TerminationRequested,
    WallClockTime,
    CPUTime,
    Memory,
}

/// Rust's integer division of `a` by `b`, which truncates toward zero.
pub open spec fn div_trunc(a: int, b: int) -> int {
    if a >= 0 { a / b } else { -((-a) / b) }
}

/// Nanoseconds to whole milliseconds, as Rust's division does it.
pub open spec fn ns_to_ms(ns: i64) -> int {
    div_trunc(ns as int, 1000000)
}

/// What a supervisor hears.
#[derive(Debug, Clone, Copy, PartialEq, Eq, Structural)]
pub enum SupervisorEvent {
    /// The supervisor itself was cancelled.
    SuperviseCancelled,
    /// The worker's termination token was cancelled.
    TerminationRequested,
    /// The isolate was entered.
    CpuEnter,
    /// The isolate was left; CPU time in nanoseconds, in all and since entering.
    CpuLeave { accumulated: i64, diff: i64 },
    /// The CPU timer fired.
    CpuAlarm,
    /// A request reached the worker (per-request supervision).
    RequestStart,
    /// A request was answered.
    RequestEnd,
    /// A wall clock alert fired.
    WallClockAlert,
    /// The time to dispatch `beforeunload` for the wall clock came.
    BeforeUnloadAlert,
    /// The isolate reached its memory limit.
    MemoryLimit,
}

/// What a supervisor does after an event.
#[derive(Debug, Clone, Copy, PartialEq, Eq, Structural)]
pub struct SupervisorAction {
    /// Reset the CPU timer.
    pub reset_cpu_timer: bool,
    /// Mark the worker retired: it takes no new request. Every action that
    /// ends supervision does.
    pub early_retire: bool,
    /// Tell the pool the worker is idle.
    pub send_idle: bool,
    /// Open the fence for the request that just arrived.
    pub release_fence: bool,
    /// Restart the wall clock alert.
    pub reset_wall_clock: bool,
    /// Ask the isolate to dispatch `beforeunload` for the wall clock.
    pub request_beforeunload: bool,
    /// Interrupt the isolate and terminate its execution.
    pub terminate: bool,
    /// Stop supervising, with this reason and CPU time.
    pub finish: Option<Finish>,
}

/// Why supervision ended, and the CPU time the worker used, in milliseconds.
#[derive(Debug, Clone, Copy, PartialEq, Eq, Structural)]
pub struct Finish {
    pub reason: ShutdownReason,
    pub cpu_time_ms: i64,
}

/// An action that does nothing.
pub open spec fn no_action() -> SupervisorAction {
    SupervisorAction {
        reset_cpu_timer: false,
        early_retire: false,
        send_idle: false,
        release_fence: false,
        reset_wall_clock: false,
        request_beforeunload: false,
        terminate: false,
        finish: None,
    }
}

fn nothing() -> (a: SupervisorAction)
    ensures
        a == no_action(),
{
    SupervisorAction {
        reset_cpu_timer: false,
        early_retire: false,
        send_idle: false,
        release_fence: false,
        reset_wall_clock: false,
        request_beforeunload: false,
        terminate: false,
        finish: None,
    }
}

/// The wall clock settings of a per-worker supervisor: whether it is off, the
/// limit (at least two milliseconds), and the alert interval, half of it.
pub fn per_worker_wall_clock(worker_timeout_ms: u64) -> (r: (bool, u64, u64))
    ensures
        r.0 == (worker_timeout_ms == 0),
        r.1 == (if worker_timeout_ms < 2 { 2 } else { worker_timeout_ms }),
        r.2 == r.1 / 2,
{
    let limit = if worker_timeout_ms < 2 { 2 } else { worker_timeout_ms };
    (worker_timeout_ms == 0, limit, limit / 2)
}

/// The wall clock settings of a per-request supervisor: whether it is off,
/// and the limit of each request (at least one millisecond).
pub fn per_request_wall_clock(worker_timeout_ms: u64) -> (r: (bool, u64))
    ensures
        r.0 == (worker_timeout_ms == 0),
        r.1 == (if worker_timeout_ms < 1 { 1 } else { worker_timeout_ms }),
{
    (worker_timeout_ms == 0, if worker_timeout_ms < 1 { 1 } else { worker_timeout_ms })
}

/// The supervisor of a worker under the per-worker policy.
#[derive(Debug, Clone, Copy, PartialEq, Eq, Structural)]
pub struct PerWorkerSupervisor {
    pub cpu: CPUTimerParam,
    pub wall_clock_disabled: bool,
    pub is_worker_entered: bool,
    pub is_wall_clock_beforeunload_armed: bool,
    pub cpu_usage_ms: i64,
    pub cpu_time_soft_limit_reached: bool,
    pub wall_clock_alerts: u8,
    pub req_ack_count: usize,
}

/// The soft CPU limit is reached: retire early, and terminate at once when
/// every request handed to the worker has been answered.
pub open spec fn soft_limit_action(s: PerWorkerSupervisor, demand: usize) -> (PerWorkerSupervisor, SupervisorAction) {
    let s1 = PerWorkerSupervisor { cpu_time_soft_limit_reached: true, ..s };
    if s.req_ack_count == demand {
        (s1, SupervisorAction {
            early_retire: true,
            terminate: true,
            finish: Some(Finish { reason: ShutdownReason::EarlyDrop, cpu_time_ms: s.cpu_usage_ms }),
            ..no_action()
        })
    } else {
        (s1, SupervisorAction { early_retire: true, ..no_action() })
    }
}

impl PerWorkerSupervisor {
    pub open spec fn initial(cpu: CPUTimerParam, worker_timeout_ms: u64) -> PerWorkerSupervisor {
        PerWorkerSupervisor {
            cpu,
            wall_clock_disabled: worker_timeout_ms == 0,
            is_worker_entered: false,
            is_wall_clock_beforeunload_armed: false,
            cpu_usage_ms: 0,
            cpu_time_soft_limit_reached: false,
            wall_clock_alerts: 0,
            req_ack_count: 0,
        }
    }

    /// The events the supervisor can take in this state: the isolate is
    /// entered and left in turn, the wall clock alerts only when the wall
    /// clock is on, `beforeunload` is armed once, and the count of answered
    /// requests fits its type.
    pub open spec fn accepts(self, event: SupervisorEvent) -> bool {
        match event {
            SupervisorEvent::CpuEnter => !self.is_worker_entered,
            SupervisorEvent::CpuLeave { .. } => self.is_worker_entered,
            SupervisorEvent::RequestEnd => self.req_ack_count < usize::MAX,
            SupervisorEvent::WallClockAlert => !self.wall_clock_disabled,
            SupervisorEvent::BeforeUnloadAlert => !self.wall_clock_disabled && !self.is_wall_clock_beforeunload_armed,
            SupervisorEvent::RequestStart => false,
            _ => true,
        }
    }

    /// The next state and the action, on `event`; `demand` is the number of
    /// requests handed to the worker so far.
    pub open spec fn next(self, event: SupervisorEvent, demand: usize) -> (PerWorkerSupervisor, SupervisorAction) {
        let disabled = self.cpu.soft_limit_ms == 0 && self.cpu.hard_limit_ms == 0;
        match event {
            SupervisorEvent::SuperviseCancelled => (
                self,
                SupervisorAction {
                    early_retire: true,
                    finish: Some(Finish { reason: ShutdownReason::TerminationRequested, cpu_time_ms: self.cpu_usage_ms }),
                    ..no_action()
                },
            ),
            SupervisorEvent::TerminationRequested => (
                self,
                SupervisorAction {
                    early_retire: true,
                    terminate: true,
                    finish: Some(Finish { reason: ShutdownReason::TerminationRequested, cpu_time_ms: self.cpu_usage_ms }),
                    ..no_action()
                },
            ),
            SupervisorEvent::CpuEnter => (
                PerWorkerSupervisor { is_worker_entered: true, ..self },
                SupervisorAction { reset_cpu_timer: !disabled, ..no_action() },
            ),
            SupervisorEvent::CpuLeave { accumulated, diff } => {
                let usage = ns_to_ms(accumulated) as i64;
                let s1 = PerWorkerSupervisor { is_worker_entered: false, cpu_usage_ms: usage, ..self };
                if disabled {
                    (s1, no_action())
                } else if usage >= self.cpu.hard_limit_ms as i64 {
                    (s1, SupervisorAction {
                        early_retire: true,
                        terminate: true,
                        finish: Some(Finish { reason: ShutdownReason::CPUTime, cpu_time_ms: usage }),
                        ..no_action()
                    })
                } else if usage >= self.cpu.soft_limit_ms as i64 && !self.cpu_time_soft_limit_reached {
                    soft_limit_action(s1, demand)
                } else {
                    (s1, no_action())
                }
            },
            SupervisorEvent::CpuAlarm => {
                if !self.is_worker_entered {
                    (self, no_action())
                } else if !self.cpu_time_soft_limit_reached {
                    soft_limit_action(self, demand)
                } else {
                    (self, SupervisorAction {
                        early_retire: true,
                        terminate: true,
                        finish: Some(Finish { reason: ShutdownReason::CPUTime, cpu_time_ms: self.cpu_usage_ms }),
                        ..no_action()
                    })
                }
            },
            SupervisorEvent::RequestStart => (self, no_action()),
            SupervisorEvent::RequestEnd => {
                let s1 = PerWorkerSupervisor { req_ack_count: (self.req_ack_count + 1) as usize, ..self };
                if !self.cpu_time_soft_limit_reached {
                    (s1, SupervisorAction { send_idle: true, ..no_action() })
                } else if s1.req_ack_count != demand {
                    (s1, no_action())
                } else {
                    (s1, SupervisorAction {
                        early_retire: true,
                        terminate: true,
                        finish: Some(Finish { reason: ShutdownReason::EarlyDrop, cpu_time_ms: self.cpu_usage_ms }),
                        ..no_action()
                    })
                }
            },
            SupervisorEvent::WallClockAlert => {
                if self.wall_clock_alerts == 0 {
                    (PerWorkerSupervisor { wall_clock_alerts: 1, ..self }, no_action())
                } else if self.wall_clock_alerts == 1 {
                    (PerWorkerSupervisor { wall_clock_alerts: 2, ..self }, SupervisorAction { early_retire: true, ..no_action() })
                } else {
                    (self, SupervisorAction {
                        early_retire: true,
                        terminate: true,
                        finish: Some(Finish { reason: ShutdownReason::WallClockTime, cpu_time_ms: self.cpu_usage_ms }),
                        ..no_action()
                    })
                }
            },
            SupervisorEvent::BeforeUnloadAlert => (
                PerWorkerSupervisor { is_wall_clock_beforeunload_armed: true, ..self },
                SupervisorAction { request_beforeunload: true, ..no_action() },
            ),
            SupervisorEvent::MemoryLimit => (
                self,
                SupervisorAction {
                    early_retire: true,
                    terminate: true,
                    finish: Some(Finish { reason: ShutdownReason::Memory, cpu_time_ms: self.cpu_usage_ms }),
                    ..no_action()
                },
            ),
        }
    }

    /// A supervisor that has seen nothing yet.
    pub fn new(cpu: CPUTimerParam, worker_timeout_ms: u64) -> (s: Self)
        ensures
            s == Self::initial(cpu, worker_timeout_ms),
    {
        PerWorkerSupervisor {
            cpu,
            wall_clock_disabled: worker_timeout_ms == 0,
            is_worker_entered: false,
            is_wall_clock_beforeunload_armed: false,
            cpu_usage_ms: 0,
            cpu_time_soft_limit_reached: false,
            wall_clock_alerts: 0,
            req_ack_count: 0,
        }
    }

    fn soft_limit(&mut self, demand: usize) -> (a: SupervisorAction)
        ensures
            (*final(self), a) == soft_limit_action(*old(self), demand),
    {
        self.cpu_time_soft_limit_reached = true;
        if self.req_ack_count == demand {
            SupervisorAction {
                early_retire: true,
                terminate: true,
                finish: Some(Finish { reason: ShutdownReason::EarlyDrop, cpu_time_ms: self.cpu_usage_ms }),
                ..nothing()
            }
        } else {
            SupervisorAction { early_retire: true, ..nothing() }
        }
    }

    /// Takes `event` (see `next`); `demand` is the number of requests handed
    /// to the worker so far.
    pub fn step(&mut self, event: SupervisorEvent, demand: usize) -> (a: SupervisorAction)
        requires
            old(self).accepts(event),
        ensures
            (*final(self), a) == old(self).next(event, demand),
    {
        let disabled = self.cpu.is_disabled();
        match event {
            SupervisorEvent::SuperviseCancelled => SupervisorAction {
                early_retire: true,
                finish: Some(Finish { reason: ShutdownReason::TerminationRequested, cpu_time_ms: self.cpu_usage_ms }),
                ..nothing()
            },
            SupervisorEvent::TerminationRequested => SupervisorAction {
                early_retire: true,
                terminate: true,
                finish: Some(Finish { reason: ShutdownReason::TerminationRequested, cpu_time_ms: self.cpu_usage_ms }),
                ..nothing()
            },
            SupervisorEvent::CpuEnter => {
                self.is_worker_entered = true;
                SupervisorAction { reset_cpu_timer: !disabled, ..nothing() }
            },
            SupervisorEvent::CpuLeave { accumulated, diff } => {
                let usage = accumulated / 1000000;
                self.is_worker_entered = false;
                self.cpu_usage_ms = usage;
                if disabled {
                    nothing()
                } else if usage >= self.cpu.hard_limit_ms as i64 {
                    SupervisorAction {
                        early_retire: true,
                        terminate: true,
                        finish: Some(Finish { reason: ShutdownReason::CPUTime, cpu_time_ms: usage }),
                        ..nothing()
                    }
                } else if usage >= self.cpu.soft_limit_ms as i64 && !self.cpu_time_soft_limit_reached {
                    self.soft_limit(demand)
                } else {
                    nothing()
                }
            },
            SupervisorEvent::CpuAlarm => {
                if !self.is_worker_entered {
                    nothing()
                } else if !self.cpu_time_soft_limit_reached {
                    self.soft_limit(demand)
                } else {
                    SupervisorAction {
                        early_retire: true,
                        terminate: true,
                        finish: Some(Finish { reason: ShutdownReason::CPUTime, cpu_time_ms: self.cpu_usage_ms }),
                        ..nothing()
                    }
                }
            },
            SupervisorEvent::RequestStart => nothing(),
            SupervisorEvent::RequestEnd => {
                self.req_ack_count = self.req_ack_count + 1;
                if !self.cpu_time_soft_limit_reached {
                    SupervisorAction { send_idle: true, ..nothing() }
                } else if self.req_ack_count != demand {
                    nothing()
                } else {
                    SupervisorAction {
                        early_retire: true,
                        terminate: true,
                        finish: Some(Finish { reason: ShutdownReason::EarlyDrop, cpu_time_ms: self.cpu_usage_ms }),
                        ..nothing()
                    }
                }
            },
            SupervisorEvent::WallClockAlert => {
                if self.wall_clock_alerts == 0 {
                    self.wall_clock_alerts = 1;
                    nothing()
                } else if self.wall_clock_alerts == 1 {
                    self.wall_clock_alerts = 2;
                    SupervisorAction { early_retire: true, ..nothing() }
                } else {
                    SupervisorAction {
                        early_retire: true,
                        terminate: true,
                        finish: Some(Finish { reason: ShutdownReason::WallClockTime, cpu_time_ms: self.cpu_usage_ms }),
                        ..nothing()
                    }
                }
            },
            SupervisorEvent::BeforeUnloadAlert => {
                self.is_wall_clock_beforeunload_armed = true;
                SupervisorAction { request_beforeunload: true, ..nothing() }
            },
            SupervisorEvent::MemoryLimit => SupervisorAction {
                early_retire: true,
                terminate: true,
                finish: Some(Finish { reason: ShutdownReason::Memory, cpu_time_ms: self.cpu_usage_ms }),
                ..nothing()
            },
        }
    }
}

/// The supervisor of a worker under the per-request policy.
#[derive(Debug, Clone, Copy, PartialEq, Eq, Structural)]
pub struct PerRequestSupervisor {
    pub cpu: CPUTimerParam,
    pub oneshot: bool,
    pub wall_clock_disabled: bool,
    pub is_worker_entered: bool,
    /// CPU time of the current request, in milliseconds.
    pub cpu_usage_ms: i64,
    /// CPU time of the worker's whole life, in milliseconds.
    pub cpu_usage_accumulated_ms: i64,
    pub req_ack_count: usize,
    /// A request has started and not yet been answered.
    pub req_start_ack: bool,
}

/// What the per-request supervisor makes of the reason an event gives to
/// complete: an early drop outside `oneshot` ends the request, not the worker
/// (the worker goes idle and the wall clock starts over); any other reason
/// terminates the worker; no reason changes nothing.
pub open spec fn complete(
    s: PerRequestSupervisor,
    a: SupervisorAction,
    reason: Option<ShutdownReason>,
) -> (PerRequestSupervisor, SupervisorAction) {
    if reason == Some(ShutdownReason::EarlyDrop) && !s.oneshot {
        (
            PerRequestSupervisor { req_start_ack: false, ..s },
            SupervisorAction { reset_wall_clock: true, send_idle: true, ..a },
        )
    } else {
    match reason {
        Some(r) => (
            s,
            SupervisorAction {
                early_retire: true,
                terminate: true,
                finish: Some(Finish { reason: r, cpu_time_ms: s.cpu_usage_accumulated_ms }),
                ..a
            },
        ),
        None => (s, a),
    }
    }
}

impl PerRequestSupervisor {
    pub open spec fn initial(cpu: CPUTimerParam, worker_timeout_ms: u64, oneshot: bool) -> PerRequestSupervisor {
        PerRequestSupervisor {
            cpu,
            oneshot,
            wall_clock_disabled: worker_timeout_ms == 0,
            is_worker_entered: false,
            cpu_usage_ms: 0,
            cpu_usage_accumulated_ms: 0,
            req_ack_count: 0,
            req_start_ack: false,
        }
    }

    /// The events the supervisor can take in this state: the isolate is
    /// entered and left in turn, a request starts only when none is running
    /// and ends only when one is, the wall clock alerts only when it is on,
    /// and the counters fit their types.
    pub open spec fn accepts(self, event: SupervisorEvent) -> bool {
        match event {
            SupervisorEvent::CpuEnter => !self.is_worker_entered,
            SupervisorEvent::CpuLeave { diff, .. } => self.is_worker_entered
                && i64::MIN <= self.cpu_usage_ms + ns_to_ms(diff) <= i64::MAX,
            SupervisorEvent::RequestStart => !self.req_start_ack,
            SupervisorEvent::RequestEnd => self.req_start_ack && self.req_ack_count < usize::MAX,
            SupervisorEvent::WallClockAlert => !self.wall_clock_disabled,
            SupervisorEvent::BeforeUnloadAlert => false,
            _ => true,
        }
    }

    /// The state after an event and the reason it gives to complete, before
    /// `complete` acts on it.
    pub open spec fn react(self, event: SupervisorEvent, demand: usize) -> (PerRequestSupervisor, SupervisorAction, Option<ShutdownReason>) {
        let disabled = self.cpu.soft_limit_ms == 0 && self.cpu.hard_limit_ms == 0;
        match event {
            SupervisorEvent::TerminationRequested => (self, no_action(), Some(ShutdownReason::TerminationRequested)),
            SupervisorEvent::CpuEnter => (
                PerRequestSupervisor { is_worker_entered: true, ..self },
                SupervisorAction { reset_cpu_timer: !disabled, ..no_action() },
                None,
            ),
            SupervisorEvent::CpuLeave { accumulated, diff } => {
                let s1 = PerRequestSupervisor {
                    is_worker_entered: false,
                    cpu_usage_ms: (self.cpu_usage_ms + ns_to_ms(diff)) as i64,
                    cpu_usage_accumulated_ms: ns_to_ms(accumulated) as i64,
                    ..self
                };
                if disabled {
                    (s1, no_action(), None)
                } else {
                    (
                        s1,
                        SupervisorAction { reset_cpu_timer: true, ..no_action() },
                        if s1.cpu_usage_ms >= self.cpu.hard_limit_ms as i64 { Some(ShutdownReason::CPUTime) } else { None },
                    )
                }
            },
            SupervisorEvent::CpuAlarm => (
                self,
                no_action(),
                if self.is_worker_entered && self.req_start_ack { Some(ShutdownReason::CPUTime) } else { None },
            ),
            SupervisorEvent::RequestStart => (
                PerRequestSupervisor { cpu_usage_ms: 0, req_start_ack: true, ..self },
                SupervisorAction { release_fence: true, reset_cpu_timer: true, ..no_action() },
                None,
            ),
            SupervisorEvent::RequestEnd => (
                PerRequestSupervisor { req_ack_count: (self.req_ack_count + 1) as usize, ..self },
                no_action(),
                Some(ShutdownReason::EarlyDrop),
            ),
            SupervisorEvent::WallClockAlert => {
                if !self.oneshot && self.req_ack_count != demand {
                    (self, SupervisorAction { reset_wall_clock: true, ..no_action() }, None)
                } else {
                    (self, no_action(), Some(ShutdownReason::WallClockTime))
                }
            },
            SupervisorEvent::MemoryLimit => (self, no_action(), Some(ShutdownReason::Memory)),
            _ => (self, no_action(), None),
        }
    }

    /// The next state and the action, on `event`; `demand` is the number of
    /// requests handed to the worker so far.
    pub open spec fn next(self, event: SupervisorEvent, demand: usize) -> (PerRequestSupervisor, SupervisorAction) {
        match event {
            SupervisorEvent::SuperviseCancelled => (
                self,
                SupervisorAction {
                    early_retire: true,
                    finish: Some(Finish { reason: ShutdownReason::TerminationRequested, cpu_time_ms: self.cpu_usage_ms }),
                    ..no_action()
                },
            ),
            _ => {
                let (s1, a, reason) = self.react(event, demand);
                complete(s1, a, reason)
            },
        }
    }

    /// A supervisor that has seen nothing yet.
    pub fn new(cpu: CPUTimerParam, worker_timeout_ms: u64, oneshot: bool) -> (s: Self)
        ensures
            s == Self::initial(cpu, worker_timeout_ms, oneshot),
    {
        PerRequestSupervisor {
            cpu,
            oneshot,
            wall_clock_disabled: worker_timeout_ms == 0,
            is_worker_entered: false,
            cpu_usage_ms: 0,
            cpu_usage_accumulated_ms: 0,
            req_ack_count: 0,
            req_start_ack: false,
        }
    }

    /// Takes `event` (see `next`).
    pub fn step(&mut self, event: SupervisorEvent, demand: usize) -> (a: SupervisorAction)
        requires
            old(self).accepts(event),
        ensures
            (*final(self), a) == old(self).next(event, demand),
    {
        let disabled = self.cpu.is_disabled();
        let (action, reason) = match event {
            SupervisorEvent::SuperviseCancelled => {
                return SupervisorAction {
                    early_retire: true,
                    finish: Some(Finish { reason: ShutdownReason::TerminationRequested, cpu_time_ms: self.cpu_usage_ms }),
                    ..nothing()
                };
            },
            SupervisorEvent::TerminationRequested => (nothing(), Some(ShutdownReason::TerminationRequested)),
            SupervisorEvent::CpuEnter => {
                self.is_worker_entered = true;
                (SupervisorAction { reset_cpu_timer: !disabled, ..nothing() }, None)
            },
            SupervisorEvent::CpuLeave { accumulated, diff } => {
                self.is_worker_entered = false;
                self.cpu_usage_ms = self.cpu_usage_ms + diff / 1000000;
                self.cpu_usage_accumulated_ms = accumulated / 1000000;
                if disabled {
                    (nothing(), None)
                } else {
                    let r = if self.cpu_usage_ms >= self.cpu.hard_limit_ms as i64 {
                        Some(ShutdownReason::CPUTime)
                    } else {
                        None
                    };
                    (SupervisorAction { reset_cpu_timer: true, ..nothing() }, r)
                }
            },
            SupervisorEvent::CpuAlarm => {
                let r = if self.is_worker_entered && self.req_start_ack {
                    Some(ShutdownReason::CPUTime)
                } else {
                    None
                };
                (nothing(), r)
            },
            SupervisorEvent::RequestStart => {
                self.cpu_usage_ms = 0;
                self.req_start_ack = true;
                (SupervisorAction { release_fence: true, reset_cpu_timer: true, ..nothing() }, None)
            },
            SupervisorEvent::RequestEnd => {
                self.req_ack_count = self.req_ack_count + 1;
                (nothing(), Some(ShutdownReason::EarlyDrop))
            },
            SupervisorEvent::WallClockAlert => {
                if !self.oneshot && self.req_ack_count != demand {
                    (SupervisorAction { reset_wall_clock: true, ..nothing() }, None)
                } else {
                    (nothing(), Some(ShutdownReason::WallClockTime))
                }
            },
            SupervisorEvent::MemoryLimit => (nothing(), Some(ShutdownReason::Memory)),
            _ => (nothing(), None),
        };
        let early = match reason {
            Some(ShutdownReason::EarlyDrop) => !self.oneshot,
            _ => false,
        };
        if early {
            self.req_start_ack = false;
            return SupervisorAction { reset_wall_clock: true, send_idle: true, ..action };
        }
        match reason {
            Some(r) => SupervisorAction {
                early_retire: true,
                terminate: true,
                finish: Some(Finish { reason: r, cpu_time_ms: self.cpu_usage_accumulated_ms }),
                ..action
            },
            None => action,
        }
    }
}

} // verus!
