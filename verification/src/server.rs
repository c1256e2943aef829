//! Decisions of the HTTP server: its flags, how it exits, and what the
//! command line selects.
use vstd::prelude::*;
use crate::policy::str_eq;

verus! {

/// The server's flags.
#[derive(Debug, Clone, Copy, PartialEq, Eq, Structural)]
pub struct ServerFlags {
    pub no_module_cache: bool,
    pub allow_main_inspector: bool,
    pub tcp_nodelay: bool,
    pub graceful_exit_deadline_sec: u64,
    pub graceful_exit_keepalive_deadline_ms: Option<u64>,
    pub request_wait_timeout_ms: Option<u64>,
    pub request_idle_timeout_ms: Option<u64>,
    pub request_read_timeout_ms: Option<u64>,
}

impl ServerFlags {
    /// All flags off, no deadline, no timeout.
    pub fn default_flags() -> (f: Self)
        ensures
            f == (ServerFlags {
                no_module_cache: false,
                allow_main_inspector: false,
                tcp_nodelay: false,
                graceful_exit_deadline_sec: 0,
                graceful_exit_keepalive_deadline_ms: None,
                request_wait_timeout_ms: None,
                request_idle_timeout_ms: None,
                request_read_timeout_ms: None,
            }),
    {
        ServerFlags {
            no_module_cache: false,
            allow_main_inspector: false,
            tcp_nodelay: false,
            graceful_exit_deadline_sec: 0,
            graceful_exit_keepalive_deadline_ms: None,
            request_wait_timeout_ms: None,
            request_idle_timeout_ms: None,
            request_read_timeout_ms: None,
        }
    }
}

/// The entrypoints of the main and the event worker, when given.
pub struct WorkerEntrypoints {
    pub main: Option<String>,
    pub events: Option<String>,
}

/// The graceful exit settings once the server's termination token fires: a
/// zero deadline then means waiting without end, and so does any keep-alive
/// deadline.
pub open spec fn termination_deadlines(deadline_sec: u64, keepalive_ms: Option<u64>) -> (u64, Option<u64>) {
    if deadline_sec == 0 {
        (u64::MAX, match keepalive_ms {
            Some(_) => Some(u64::MAX),
            None => None,
        })
    } else {
        (deadline_sec, keepalive_ms)
    }
}

/// Computes `termination_deadlines`.
pub fn deadlines_on_termination(deadline_sec: u64, keepalive_ms: Option<u64>) -> (r: (u64, Option<u64>))
    ensures
        r == termination_deadlines(deadline_sec, keepalive_ms),
{
    if deadline_sec == 0 {
        (u64::MAX, match keepalive_ms {
            Some(_) => Some(u64::MAX),
            None => None,
        })
    } else {
        (deadline_sec, keepalive_ms)
    }
}

/// When new requests on kept-alive connections stop being accepted.
#[derive(Debug, Clone, Copy, PartialEq, Eq, Structural)]
pub enum StopAccepting {
    /// At once.
    Now,
    /// After this many milliseconds.
    After(u64),
    /// Not before the workers are done.
    Never,
}

/// How the server exits once it stops listening.
#[derive(Debug, Clone, Copy, PartialEq, Eq, Structural)]
pub enum ExitPlan {
    /// Wait up to `deadline_sec` for the requests in flight, then terminate the workers.
    Drain { deadline_sec: u64, stop_accepting: StopAccepting },
    /// Exit at once, warning that requests in flight are dropped.
    ExitWithWarning,
    /// Exit at once.
    Exit,
}

/// The exit plan: an interrupt exits at once; otherwise a deadline drains
/// the requests in flight first (with the keep-alive deadline, if any,
/// pushing back when new requests stop being taken); without one the server
/// exits at once, warning when requests are still in flight.
pub open spec fn plan_for(
    interrupted: bool,
    deadline_sec: u64,
    keepalive_ms: Option<u64>,
    received: u64,
    handled: u64,
) -> ExitPlan {
    if !interrupted && deadline_sec > 0 {
        ExitPlan::Drain {
            deadline_sec,
            stop_accepting: match keepalive_ms {
                None => StopAccepting::Now,
                Some(ms) => if ms < u64::MAX { StopAccepting::After(ms) } else { StopAccepting::Never },
            },
        }
    } else if !interrupted && received != handled {
        ExitPlan::ExitWithWarning
    } else {
        ExitPlan::Exit
    }
}

/// Computes `plan_for`.
pub fn exit_plan(
    interrupted: bool,
    deadline_sec: u64,
    keepalive_ms: Option<u64>,
    received: u64,
    handled: u64,
) -> (p: ExitPlan)
    ensures
        p == plan_for(interrupted, deadline_sec, keepalive_ms, received, handled),
{
    if !interrupted && deadline_sec > 0 {
        let stop_accepting = match keepalive_ms {
            None => StopAccepting::Now,
            Some(ms) => if ms < u64::MAX { StopAccepting::After(ms) } else { StopAccepting::Never },
        };
        ExitPlan::Drain { deadline_sec, stop_accepting }
    } else if !interrupted && received != handled {
        ExitPlan::ExitWithWarning
    } else {
        ExitPlan::Exit
    }
}

/// Once the termination token has fired, the server always drains: it never
/// drops the requests in flight, and with no deadline configured it neither
/// gives up on them nor stops taking requests on kept-alive connections,
/// when a keep-alive deadline was asked for.
pub proof fn lemma_termination_token_drains(
    deadline_sec: u64,
    keepalive_ms: Option<u64>,
    received: u64,
    handled: u64,
)
    ensures
        ({
            let (d, k) = termination_deadlines(deadline_sec, keepalive_ms);
            &&& plan_for(false, d, k, received, handled) is Drain
            &&& deadline_sec == 0 ==> plan_for(false, d, k, received, handled) == (ExitPlan::Drain {
                deadline_sec: u64::MAX,
                stop_accepting: if keepalive_ms is Some { StopAccepting::Never } else { StopAccepting::Now },
            })
        }),
{
}

/// Whether draining is done: no connection open and every request received handled.
pub fn drained(active_io: u64, received: u64, handled: u64) -> (b: bool)
    ensures
        b == (active_io == 0 && received == handled),
{
    active_io == 0 && received == handled
}

/// Which workers export telemetry, as the command line asks.
#[derive(Debug, Clone, Copy, PartialEq, Eq, Structural)]
pub enum OtelKind {
    Main,
    Event,
    Both,
}

/// The telemetry setting for the kinds asked for: none for none, both for
/// more than one, and the one asked for otherwise.
pub fn otel_kind(enabled: &Vec<OtelKind>) -> (r: Option<OtelKind>)
    requires
        forall|i: int| 0 <= i < enabled@.len() ==> enabled@[i] != OtelKind::Both,
    ensures
        r == (if enabled@.len() == 0 {
            None
        } else if enabled@.len() > 1 {
            Some(OtelKind::Both)
        } else {
            Some(enabled@[0])
        }),
{
    if enabled.len() == 0 {
        None
    } else if enabled.len() > 1 {
        Some(OtelKind::Both)
    } else {
        Some(enabled[0])
    }
}

/// How the inspector is started.
#[derive(Debug, Clone, Copy, PartialEq, Eq, Structural)]
pub enum InspectorMode {
    /// `--inspect`: start the inspector.
    Inspect,
    /// `--inspect-brk`: start it and break before user code runs.
    WithBreak,
    /// `--inspect-wait`: start it and wait for a session before user code runs.
    WithWait,
}

/// The inspector flag name was none of the three.
#[derive(Debug)]
pub struct InvalidInspectorKey {
    pub key: String,
}

/// The inspector mode of a command-line flag name.
pub open spec fn mode_named(key: Seq<char>) -> Option<InspectorMode> {
    if key == "inspect"@ {
        Some(InspectorMode::Inspect)
    } else if key == "inspect-brk"@ {
        Some(InspectorMode::WithBreak)
    } else if key == "inspect-wait"@ {
        Some(InspectorMode::WithWait)
    } else {
        None
    }
}

/// Parses the inspector flag name; any other name is refused.
pub fn inspector_mode(key: &str) -> (r: Result<InspectorMode, InvalidInspectorKey>)
    ensures
        match r {
            Ok(m) => mode_named(key@) == Some(m),
            Err(e) => mode_named(key@) is None && e.key@ == key@,
        },
{
    proof {
        reveal_strlit("inspect");
        reveal_strlit("inspect-brk");
        reveal_strlit("inspect-wait");
    }
    if str_eq(key, "inspect") {
        Ok(InspectorMode::Inspect)
    } else if str_eq(key, "inspect-brk") {
        Ok(InspectorMode::WithBreak)
    } else if str_eq(key, "inspect-wait") {
        Ok(InspectorMode::WithWait)
    } else {
        Err(InvalidInspectorKey { key: key.to_owned() })
    }
}

impl InspectorMode {
    /// Whether a worker waits for an inspector session before running.
    pub fn should_wait_for_session(&self) -> (b: bool)
        ensures
            b == (*self != InspectorMode::Inspect),
    {
        match self {
            InspectorMode::Inspect => false,
            _ => true,
        }
    }
}

/// The inspector the main worker gets: a plain one, whatever mode the
/// command line chose, and only where the main worker may have one at all.
pub fn main_inspector_mode(allow_main_inspector: bool, mode: Option<InspectorMode>) -> (r: Option<InspectorMode>)
    ensures
        r == (if allow_main_inspector && mode is Some { Some(InspectorMode::Inspect) } else { None }),
{
    if allow_main_inspector {
        match mode {
            Some(_) => Some(InspectorMode::Inspect),
            None => None,
        }
    } else {
        None
    }
}

/// What the server's termination cancels, and waits for, in turn.
#[derive(Debug, Clone, Copy, PartialEq, Eq, Structural)]
pub enum TerminationTarget {
    /// The events worker.
    EventWorker,
    /// The user worker pool.
    Pool,
    /// The main worker.
    MainWorker,
    /// The outbound side of the token the server was given, telling its
    /// owner that the server is done.
    Outbound,
}

/// The order of the server's termination: the events worker first (when
/// there is one), then the user worker pool, then the main worker, and last
/// the outbound side of the given token (when there is one).
pub open spec fn termination_sequence(has_event_worker: bool, has_input_token: bool) -> Seq<TerminationTarget> {
    (if has_event_worker { seq![TerminationTarget::EventWorker] } else { Seq::empty() })
        + seq![TerminationTarget::Pool, TerminationTarget::MainWorker]
        + (if has_input_token { seq![TerminationTarget::Outbound] } else { Seq::empty() })
}

/// Lists what the server's termination cancels, in order (see
/// `termination_sequence`).
pub fn termination_order(has_event_worker: bool, has_input_token: bool) -> (v: Vec<TerminationTarget>)
    ensures
        v@ == termination_sequence(has_event_worker, has_input_token),
{
    let mut v: Vec<TerminationTarget> = Vec::new();
    if has_event_worker {
        v.push(TerminationTarget::EventWorker);
    }
    v.push(TerminationTarget::Pool);
    v.push(TerminationTarget::MainWorker);
    if has_input_token {
        v.push(TerminationTarget::Outbound);
    }
    proof {
        assert(v@ =~= termination_sequence(has_event_worker, has_input_token));
    }
    v
}

/// The main worker outlives the user workers it hands requests to: the pool
/// is terminated before it, and the events worker, which hears from both,
/// before either.
pub proof fn lemma_termination_order(has_event_worker: bool, has_input_token: bool)
    ensures
        ({
            let s = termination_sequence(has_event_worker, has_input_token);
            let pool = if has_event_worker { 1int } else { 0int };
            &&& s[pool] == TerminationTarget::Pool
            &&& s[pool + 1] == TerminationTarget::MainWorker
            &&& has_event_worker ==> s[0] == TerminationTarget::EventWorker
            &&& has_input_token ==> s.last() == TerminationTarget::Outbound
        }),
{
}

} // verus!
