//! How user workers are supervised and pooled.
use vstd::prelude::*;

verus! {

/// How a user worker's isolate is supervised: once for its whole life, or
/// request by request (and, when `oneshot`, for a single request only).
#[derive(Debug, Clone, Copy, PartialEq, Eq, Structural)]
pub enum SupervisorPolicy {
    PerWorker,
    PerRequest { oneshot: bool },
}

/// Which policy a command-line name selects.
pub open spec fn policy_named(s: Seq<char>) -> Option<SupervisorPolicy> {
    if s == "per_worker"@ {
        Some(SupervisorPolicy::PerWorker)
    } else if s == "per_request"@ {
        Some(SupervisorPolicy::PerRequest { oneshot: false })
    } else if s == "oneshot"@ {
        Some(SupervisorPolicy::PerRequest { oneshot: true })
    } else {
        None
    }
}

/// Whether two strings hold the same characters.
pub fn str_eq(a: &str, b: &str) -> (res: bool)
    ensures
        res == (a@ == b@),
{
    let x = a.to_owned();
    let y = b.to_owned();
    x == y
}

impl SupervisorPolicy {
    /// The policy used when none is given: one supervisor per worker.
    pub fn default_policy() -> (p: Self)
        ensures
            p == SupervisorPolicy::PerWorker,
    {
        SupervisorPolicy::PerWorker
    }

    /// Parses one of the names `per_worker`, `per_request` and `oneshot`;
    /// the command line admits no other.
    pub fn from_str(s: &str) -> (p: Self)
        requires
            policy_named(s@) is Some,
        ensures
            Some(p) == policy_named(s@),
    {
        proof {
            reveal_strlit("per_worker");
            reveal_strlit("per_request");
            reveal_strlit("oneshot");
        }
        if str_eq(s, "per_worker") {
            SupervisorPolicy::PerWorker
        } else if str_eq(s, "per_request") {
            SupervisorPolicy::PerRequest { oneshot: false }
        } else {
            SupervisorPolicy::PerRequest { oneshot: true }
        }
    }

    /// The per-request policy that retires the worker after one request.
    pub fn oneshot() -> (p: Self)
        ensures
            p == (SupervisorPolicy::PerRequest { oneshot: true }),
    {
        SupervisorPolicy::PerRequest { oneshot: true }
    }

    pub fn is_oneshot(&self) -> (b: bool)
        ensures
            b == (*self == SupervisorPolicy::PerRequest { oneshot: true }),
    {
        match self {
            SupervisorPolicy::PerRequest { oneshot } => *oneshot,
            SupervisorPolicy::PerWorker => false,
        }
    }

    pub fn is_per_worker(&self) -> (b: bool)
        ensures
            b == (*self is PerWorker),
    {
        match self {
            SupervisorPolicy::PerWorker => true,
            _ => false,
        }
    }

    pub fn is_per_request(&self) -> (b: bool)
        ensures
            b == (*self is PerRequest),
    {
        match self {
            SupervisorPolicy::PerRequest { .. } => true,
            _ => false,
        }
    }
}

/// How long a request waits for a worker, in milliseconds, unless told otherwise.
pub const DEFAULT_REQUEST_WAIT_TIMEOUT_MS: u64 = 10000;

/// The policy of the user worker pool.
#[derive(Debug, Clone, Copy, PartialEq, Eq, Structural)]
pub struct WorkerPoolPolicy {
    pub supervisor_policy: SupervisorPolicy,
    pub max_parallelism: usize,
    pub request_wait_timeout_ms: u64,
}

impl WorkerPoolPolicy {
    /// The default pool policy, given the parallelism the machine offers.
    pub fn default_with(available_parallelism: usize) -> (p: Self)
        ensures
            p.supervisor_policy == SupervisorPolicy::PerWorker,
            p.max_parallelism == available_parallelism,
            p.request_wait_timeout_ms == DEFAULT_REQUEST_WAIT_TIMEOUT_MS,
    {
        WorkerPoolPolicy {
            supervisor_policy: SupervisorPolicy::default_policy(),
            max_parallelism: available_parallelism,
            request_wait_timeout_ms: DEFAULT_REQUEST_WAIT_TIMEOUT_MS,
        }
    }

    /// A pool policy where each value that is not given takes its default.
    pub fn new(
        supervisor: Option<SupervisorPolicy>,
        max_parallelism: Option<usize>,
        request_wait_timeout_ms: Option<u64>,
        available_parallelism: usize,
    ) -> (p: Self)
        ensures
            p.supervisor_policy == (match supervisor {
                Some(s) => s,
                None => SupervisorPolicy::PerWorker,
            }),
            p.max_parallelism == (match max_parallelism {
                Some(m) => m,
                None => available_parallelism,
            }),
            p.request_wait_timeout_ms == (match request_wait_timeout_ms {
                Some(t) => t,
                None => DEFAULT_REQUEST_WAIT_TIMEOUT_MS,
            }),
    {
        let default = Self::default_with(available_parallelism);
        WorkerPoolPolicy {
            supervisor_policy: match supervisor {
                Some(s) => s,
                None => default.supervisor_policy,
            },
            max_parallelism: match max_parallelism {
                Some(m) => m,
                None => default.max_parallelism,
            },
            request_wait_timeout_ms: match request_wait_timeout_ms {
                Some(t) => t,
                None => default.request_wait_timeout_ms,
            },
        }
    }
}

/// The pool policy the tests run user workers under: one-shot workers, one
/// at a time, that wait up to four hours for a worker.
pub fn test_user_worker_pool_policy() -> (p: WorkerPoolPolicy)
    ensures
        p.supervisor_policy == (SupervisorPolicy::PerRequest { oneshot: true }),
        p.max_parallelism == 1,
        p.request_wait_timeout_ms == 14400000,
{
    WorkerPoolPolicy::new(Some(SupervisorPolicy::oneshot()), Some(1), Some(4 * 1000 * 3600), 1)
}

/// The parallelism the pool is given and whether to warn about it: under the
/// `oneshot` policy it is fixed to one, with a warning when another value
/// (zero included) was asked for; otherwise what was asked for stands.
pub fn user_worker_max_parallelism(
    policy: Option<SupervisorPolicy>,
    requested: Option<usize>,
) -> (res: (Option<usize>, bool))
    ensures
        (policy == Some(SupervisorPolicy::PerRequest { oneshot: true })) ==> res == (
            Some(1usize),
            match requested {
                Some(n) => n != 1,
                None => false,
            },
        ),
        (policy != Some(SupervisorPolicy::PerRequest { oneshot: true })) ==> res == (requested, false),
{
    let is_oneshot = match policy {
        Some(p) => p.is_oneshot(),
        None => false,
    };
    if is_oneshot {
        let warn = match requested {
            Some(n) => n == 0 || n > 1,
            None => false,
        };
        (Some(1), warn)
    } else {
        (requested, false)
    }
}

/// The CPU time limits of a user worker, in milliseconds.
#[derive(Debug, Clone, Copy, PartialEq, Eq, Structural)]
pub struct CPUTimerParam {
    pub soft_limit_ms: u64,
    pub hard_limit_ms: u64,
}

impl CPUTimerParam {
    pub fn new(soft_limit_ms: u64, hard_limit_ms: u64) -> (p: Self)
        ensures
            p.soft_limit_ms == soft_limit_ms,
            p.hard_limit_ms == hard_limit_ms,
    {
        CPUTimerParam { soft_limit_ms, hard_limit_ms }
    }

    /// The soft and the hard limit.
    pub fn limits(&self) -> (l: (u64, u64))
        ensures
            l == (self.soft_limit_ms, self.hard_limit_ms),
    {
        (self.soft_limit_ms, self.hard_limit_ms)
    }

    /// Both limits are zero: no CPU timer runs.
    pub fn is_disabled(&self) -> (b: bool)
        ensures
            b == (self.soft_limit_ms == 0 && self.hard_limit_ms == 0),
    {
        self.soft_limit_ms == 0 && self.hard_limit_ms == 0
    }

    /// The first alarm and the repeat interval of the CPU timer to start for
    /// a supervisor under `policy`, or `None` when the limits are disabled.
    /// A per-worker supervisor is alarmed first at the soft limit and then
    /// every hard limit; a per-request one once, at the hard limit.
    pub fn timer_settings(&self, policy: SupervisorPolicy) -> (r: Option<(u64, u64)>)
        ensures
            r == (if self.soft_limit_ms == 0 && self.hard_limit_ms == 0 {
                None
            } else {
                Some((
                    if policy is PerWorker { self.soft_limit_ms } else { self.hard_limit_ms },
                    if policy is PerRequest { 0 } else { self.hard_limit_ms },
                ))
            }),
    {
        if self.is_disabled() {
            return None;
        }
        let initial = if policy.is_per_worker() { self.soft_limit_ms } else { self.hard_limit_ms };
        let interval = if policy.is_per_request() { 0 } else { self.hard_limit_ms };
        Some((initial, interval))
    }
}

} // verus!
