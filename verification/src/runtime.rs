//! Decisions of a worker's JavaScript runtime: its memory check, its main
//! module, and why it is about to terminate.
use vstd::prelude::*;
use crate::paths::find_up;
use crate::supervisor::{ns_to_ms, Finish, ShutdownReason};
use crate::units::{mib_to_bytes, MIB};
use vstd::string::{StrSliceExecFns, StringExecFns};

verus! {

/// Why a worker is about to terminate, as told to its `beforeunload` listeners.
#[derive(Debug, Clone, Copy, PartialEq, Eq, Structural)]
pub enum WillTerminateReason {
    CPU,
    Memory,
    WallClock,
    EarlyDrop,
    Termination,
}

impl WillTerminateReason {
    /// The name the reason is given in JavaScript.
    pub fn as_str(&self) -> (s: &'static str)
        ensures
            s@ == (match *self {
                WillTerminateReason::CPU => "cpu"@,
                WillTerminateReason::Memory => "memory"@,
                WillTerminateReason::WallClock => "wall_clock"@,
                WillTerminateReason::EarlyDrop => "early_drop"@,
                WillTerminateReason::Termination => "termination"@,
            }),
    {
        match self {
            WillTerminateReason::CPU => "cpu",
            WillTerminateReason::Memory => "memory",
            WillTerminateReason::WallClock => "wall_clock",
            WillTerminateReason::EarlyDrop => "early_drop",
            WillTerminateReason::Termination => "termination",
        }
    }
}

/// Heap figures of an isolate, in bytes.
#[derive(Debug, Clone, Copy, PartialEq, Eq, Structural)]
pub struct IsolateMemoryStats {
    pub used_heap_size: usize,
    pub external_memory: usize,
}

/// The memory a worker used when it shut down, in bytes.
#[derive(Debug, Clone, Copy, PartialEq, Eq, Structural)]
pub struct WorkerMemoryUsed {
    pub total: usize,
    pub heap: usize,
    pub external: usize,
}

/// The memory report of a worker that shut down: its isolate's figures,
/// or zeros when they never came.
pub fn memory_used(stats: Option<IsolateMemoryStats>) -> (m: WorkerMemoryUsed)
    requires
        stats matches Some(s) ==> s.used_heap_size + s.external_memory <= usize::MAX,
    ensures
        m == (match stats {
            Some(s) => WorkerMemoryUsed {
                total: (s.used_heap_size + s.external_memory) as usize,
                heap: s.used_heap_size,
                external: s.external_memory,
            },
            None => WorkerMemoryUsed { total: 0, heap: 0, external: 0 },
        }),
{
    match stats {
        Some(s) => WorkerMemoryUsed {
            total: s.used_heap_size + s.external_memory,
            heap: s.used_heap_size,
            external: s.external_memory,
        },
        None => WorkerMemoryUsed { total: 0, heap: 0, external: 0 },
    }
}

/// The heap limit a user worker's isolate gets once it comes near its
/// limit: the current limit times the low-memory multiplier, an allowance
/// that lasts until the isolate is terminated.
pub fn near_heap_limit(current: usize, low_memory_multiplier: u64) -> (limit: usize)
    requires
        current * (low_memory_multiplier as usize) <= usize::MAX,
    ensures
        limit == current * (low_memory_multiplier as usize),
{
    current * (low_memory_multiplier as usize)
}

/// What a user worker's supervision reports when it ends.
#[derive(Debug, Clone, Copy, PartialEq, Eq, Structural)]
pub struct ShutdownEvent {
    pub reason: ShutdownReason,
    pub memory_used: WorkerMemoryUsed,
    pub cpu_time_used: usize,
}

/// The shutdown event of a supervision that ended as `finish` says (its
/// reason, and its CPU time in milliseconds), with the isolate's memory
/// figures when they came (see `memory_used`).
pub fn shutdown_event(finish: Finish, stats: Option<IsolateMemoryStats>) -> (e: ShutdownEvent)
    requires
        stats matches Some(s) ==> s.used_heap_size + s.external_memory <= usize::MAX,
    ensures
        e.reason == finish.reason,
        e.cpu_time_used == finish.cpu_time_ms as usize,
        e.memory_used == (match stats {
            Some(s) => WorkerMemoryUsed {
                total: (s.used_heap_size + s.external_memory) as usize,
                heap: s.used_heap_size,
                external: s.external_memory,
            },
            None => WorkerMemoryUsed { total: 0, heap: 0, external: 0 },
        }),
{
    ShutdownEvent { reason: finish.reason, memory_used: memory_used(stats), cpu_time_used: finish.cpu_time_ms as usize }
}

/// What an isolate's termination interrupt carries: whether to terminate.
pub struct V8HandleTerminationData {
    pub should_terminate: bool,
}

/// CPU time of an isolate, in nanoseconds: in all, and since it was entered.
#[derive(Debug, Clone, Copy, PartialEq, Eq, Structural)]
pub struct CPUUsage {
    pub accumulated: i64,
    pub diff: i64,
}

/// The heap figures the memory check keeps, in bytes.
#[derive(Debug, Clone, Copy, PartialEq, Eq, Structural)]
pub struct HeapFigures {
    pub malloced: usize,
    pub used_heap: usize,
    pub external: usize,
}

/// The state of a worker's memory check: whether the limit was exceeded, and
/// the last figures seen before it was.
#[derive(Debug, Clone, Copy, PartialEq, Eq, Structural)]
pub struct MemCheckState {
    pub exceeded: bool,
    pub current: HeapFigures,
}

/// `a + b`, or `usize::MAX` when it does not fit.
pub open spec fn sat_add(a: int, b: int) -> int {
    if a + b > usize::MAX { usize::MAX as int } else { a + b }
}

/// The bytes a memory check counts: the heap in use, external memory, and
/// (when so configured) malloced memory, adding up to at most `usize::MAX`.
pub open spec fn counted_bytes(figures: HeapFigures, include_malloced: bool) -> int {
    sat_add(sat_add(if include_malloced { figures.malloced as int } else { 0 }, figures.used_heap as int), figures.external as int)
}

/// The state after a memory check, the bytes counted, and whether the limit
/// was exceeded just now.
pub open spec fn mem_check_spec(
    s: MemCheckState,
    limit: Option<usize>,
    include_malloced: bool,
    figures: HeapFigures,
) -> (MemCheckState, int, bool) {
    match limit {
        None => (s, 0, false),
        Some(l) => {
            let total = counted_bytes(figures, include_malloced);
            if s.exceeded {
                (s, total, false)
            } else {
                (MemCheckState { exceeded: total >= l, current: figures }, total, total >= l)
            }
        },
    }
}

/// Checks an isolate's memory against `limit`: gives the bytes counted (zero
/// when there is no limit) and whether the limit was exceeded just now. Once
/// exceeded the state no longer changes.
pub fn mem_check(
    state: &mut MemCheckState,
    limit: Option<usize>,
    include_malloced: bool,
    figures: HeapFigures,
) -> (r: (usize, bool))
    ensures
        (*final(state), r.0 as int, r.1) == mem_check_spec(*old(state), limit, include_malloced, figures),
{
    let l = match limit {
        None => return (0, false),
        Some(l) => l,
    };
    let malloced = if include_malloced { figures.malloced } else { 0 };
    let total = malloced.saturating_add(figures.used_heap).saturating_add(figures.external);
    let mut newly = false;
    if !state.exceeded {
        state.current = figures;
        if total >= l {
            state.exceeded = true;
            newly = true;
        }
    }
    (total, newly)
}

/// The extensions under which an `index` file is looked for, in order.
pub fn index_extensions() -> (v: Vec<&'static str>)
    ensures
        v@.len() == 4,
        v@[0]@ == "ts"@,
        v@[1]@ == "tsx"@,
        v@[2]@ == "js"@,
        v@[3]@ == "jsx"@,
{
    let mut v = Vec::new();
    v.push("ts");
    v.push("tsx");
    v.push("js");
    v.push("jsx");
    v
}

/// Where a worker's main module comes from.
#[derive(Debug, Clone, Copy, PartialEq, Eq, Structural)]
pub enum MainModule {
    /// The `index` file with the extension at this position of `index_extensions`.
    IndexFile(usize),
    /// The entrypoint given.
    Entrypoint,
}

/// Chooses a worker's main module: an entrypoint wins; otherwise the first
/// `index` file that exists, and the last one tried (`index.jsx`) when none
/// does. `index_exists[i]` says whether the `index` file with the extension
/// at position `i` of `index_extensions` exists.
pub fn select_main_module(has_entrypoint: bool, index_exists: &Vec<bool>) -> (m: MainModule)
    requires
        index_exists@.len() == 4,
    ensures
        has_entrypoint ==> m == MainModule::Entrypoint,
        !has_entrypoint ==> (exists|i: int| 0 <= i < 4 && index_exists@[i]) ==> (m matches MainModule::IndexFile(i)
            && i < 4 && index_exists@[i as int] && forall|j: int| 0 <= j < i ==> !index_exists@[j]),
        !has_entrypoint ==> (forall|j: int| 0 <= j < 4 ==> !index_exists@[j]) ==> m == MainModule::IndexFile(3),
{
    let found = find_up(index_exists);
    if has_entrypoint {
        return MainModule::Entrypoint;
    }
    match found {
        Some(i) => MainModule::IndexFile(i),
        None => MainModule::IndexFile(3),
    }
}

/// Whether the worker's module code alone is compiled (under the main
/// module's URL): module code is given, with no eszip and no entrypoint.
pub fn only_module_code(has_module_code: bool, has_eszip: bool, has_entrypoint: bool) -> (b: bool)
    ensures
        b == (has_module_code && !has_eszip && !has_entrypoint),
{
    has_module_code && !has_eszip && !has_entrypoint
}

/// A value marked as safe to send between threads.
pub struct MaskValueAsSend<V> {
    pub value: V,
}

impl<V> MaskValueAsSend<V> {
    pub fn into_inner(self) -> (v: V)
        ensures
            v == self.value,
    {
        self.value
    }
}

/// A future marked as safe to send between threads.
pub struct MaskFutureAsSend<Fut> {
    pub fut: MaskValueAsSend<Fut>,
}

impl<Fut> From<Fut> for MaskFutureAsSend<Fut> {
    fn from(value: Fut) -> (m: Self) {
        MaskFutureAsSend { fut: MaskValueAsSend { value } }
    }
}

impl<Fut> vstd::std_specs::convert::FromSpecImpl<Fut> for MaskFutureAsSend<Fut> {
    open spec fn obeys_from_spec() -> bool {
        true
    }

    open spec fn from_spec(v: Fut) -> Self {
        MaskFutureAsSend { fut: MaskValueAsSend { value: v } }
    }
}

/// The memory limit is reported exceeded at most once: after a check that
/// reports it, the state never changes again and no later check reports it.
pub proof fn lemma_mem_check_reports_once(
    s: MemCheckState,
    limit: Option<usize>,
    include_malloced: bool,
    f1: HeapFigures,
    limit2: Option<usize>,
    f2: HeapFigures,
)
    requires
        mem_check_spec(s, limit, include_malloced, f1).2,
    ensures
        ({
            let s1 = mem_check_spec(s, limit, include_malloced, f1).0;
            &&& s1.exceeded
            &&& mem_check_spec(s1, limit2, include_malloced, f2).0 == s1
            &&& !mem_check_spec(s1, limit2, include_malloced, f2).2
        }),
{
}

/// What the CPU metrics guard reports when the isolate is left: the CPU
/// time of this stay (the clock read at leaving, or else no time, less the
/// clock read at entering) and the worker's CPU time in all, which grows by
/// that and by the CPU time of blocking work done meanwhile.
pub open spec fn cpu_usage_on_leave(accumulated: i64, entered_ns: i64, left_ns: Option<i64>, blocking_ns: i64) -> (int, int) {
    let diff = match left_ns {
        Some(t) => t - entered_ns,
        None => 0int,
    };
    (accumulated + diff + blocking_ns, diff)
}

/// Accounts for a stay in the isolate: gives the worker's new CPU time in
/// all and the usage to report (see `cpu_usage_on_leave`).
pub fn cpu_usage_leave(accumulated: i64, entered_ns: i64, left_ns: Option<i64>, blocking_ns: i64) -> (r: (i64, CPUUsage))
    requires
        i64::MIN <= cpu_usage_on_leave(accumulated, entered_ns, left_ns, blocking_ns).1 <= i64::MAX,
        i64::MIN <= accumulated + cpu_usage_on_leave(accumulated, entered_ns, left_ns, blocking_ns).1 <= i64::MAX,
        i64::MIN <= cpu_usage_on_leave(accumulated, entered_ns, left_ns, blocking_ns).0 <= i64::MAX,
    ensures
        r.0 == cpu_usage_on_leave(accumulated, entered_ns, left_ns, blocking_ns).0,
        r.1 == (CPUUsage { accumulated: r.0, diff: cpu_usage_on_leave(accumulated, entered_ns, left_ns, blocking_ns).1 as i64 }),
{
    let left = match left_ns {
        Some(t) => t,
        None => entered_ns,
    };
    let diff = left - entered_ns;
    let mut total = accumulated + diff;
    total = total + blocking_ns;
    (total, CPUUsage { accumulated: total, diff })
}

/// A worker's CPU time in all never goes back: with a clock that does not
/// run backwards and no negative blocking time, each stay adds to it.
pub proof fn lemma_cpu_time_grows(accumulated: i64, entered_ns: i64, left_ns: Option<i64>, blocking_ns: i64)
    requires
        left_ns matches Some(t) ==> t >= entered_ns,
        blocking_ns >= 0,
    ensures
        cpu_usage_on_leave(accumulated, entered_ns, left_ns, blocking_ns).0 >= accumulated,
        cpu_usage_on_leave(accumulated, entered_ns, left_ns, blocking_ns).1 >= 0,
{
}

/// Whether the CPU timer kept for the isolate can be used on this thread:
/// only one made on this very thread is; any other is dropped and a new one
/// made.
pub fn reuse_cpu_timer(kept_for_thread: Option<u64>, current_thread: u64) -> (reuse: bool)
    ensures
        reuse == (kept_for_thread == Some(current_thread)),
{
    match kept_for_thread {
        Some(t) => t == current_thread,
        None => false,
    }
}

/// How a worker's runtime runs: whether it waits for the termination
/// request token, the stream of connections it serves, and where it reports
/// CPU usage, if anywhere.
pub struct RunOptions<R, T> {
    pub wait_termination_request_token: bool,
    pub duplex_stream_rx: R,
    pub maybe_cpu_usage_metrics_tx: Option<T>,
}

/// Builds `RunOptions`; the stream of connections must be given.
pub struct RunOptionsBuilder<R, T> {
    pub wait_termination_request_token: bool,
    pub duplex_stream_rx: Option<R>,
    pub maybe_cpu_usage_metrics_tx: Option<T>,
}

/// "stream_rx can't be empty".
#[derive(Debug, Clone, Copy, PartialEq, Eq, Structural)]
pub enum RunOptionsError {
    StreamRxEmpty,
}

/// One call of a setter of `RunOptionsBuilder`.
pub enum RunOptionsSetting<R, T> {
    WaitTerminationRequestToken(bool),
    StreamRx(R),
    CpuUsageMetricsTx(Option<T>),
}

/// The builder `new` gives.
pub open spec fn initial_builder<R, T>() -> RunOptionsBuilder<R, T> {
    RunOptionsBuilder { wait_termination_request_token: true, duplex_stream_rx: None, maybe_cpu_usage_metrics_tx: None }
}

/// The builder after one setter call.
pub open spec fn apply_setting<R, T>(b: RunOptionsBuilder<R, T>, s: RunOptionsSetting<R, T>) -> RunOptionsBuilder<R, T> {
    match s {
        RunOptionsSetting::WaitTerminationRequestToken(v) => RunOptionsBuilder { wait_termination_request_token: v, ..b },
        RunOptionsSetting::StreamRx(v) => RunOptionsBuilder { duplex_stream_rx: Some(v), ..b },
        RunOptionsSetting::CpuUsageMetricsTx(v) => RunOptionsBuilder { maybe_cpu_usage_metrics_tx: v, ..b },
    }
}

/// The builder after the setter calls `ss`, in order.
pub open spec fn apply_settings<R, T>(b: RunOptionsBuilder<R, T>, ss: Seq<RunOptionsSetting<R, T>>) -> RunOptionsBuilder<R, T>
    decreases ss.len(),
{
    if ss.len() == 0 {
        b
    } else {
        apply_setting(apply_settings(b, ss.drop_last()), ss.last())
    }
}

/// The value the last `wait_termination_request_token` call of `ss` set.
pub open spec fn last_wait_set<R, T>(ss: Seq<RunOptionsSetting<R, T>>) -> Option<bool>
    decreases ss.len(),
{
    if ss.len() == 0 {
        None
    } else if ss.last() is WaitTerminationRequestToken {
        Some(ss.last()->WaitTerminationRequestToken_0)
    } else {
        last_wait_set(ss.drop_last())
    }
}

/// The stream the last `stream_rx` call of `ss` set.
pub open spec fn last_stream_set<R, T>(ss: Seq<RunOptionsSetting<R, T>>) -> Option<R>
    decreases ss.len(),
{
    if ss.len() == 0 {
        None
    } else if ss.last() is StreamRx {
        Some(ss.last()->StreamRx_0)
    } else {
        last_stream_set(ss.drop_last())
    }
}

/// The sender the last `cpu_usage_metrics_tx` call of `ss` set.
pub open spec fn last_cpu_tx_set<R, T>(ss: Seq<RunOptionsSetting<R, T>>) -> Option<Option<T>>
    decreases ss.len(),
{
    if ss.len() == 0 {
        None
    } else if ss.last() is CpuUsageMetricsTx {
        Some(ss.last()->CpuUsageMetricsTx_0)
    } else {
        last_cpu_tx_set(ss.drop_last())
    }
}

/// What `build` gives of a builder.
pub open spec fn built<R, T>(b: RunOptionsBuilder<R, T>) -> Result<RunOptions<R, T>, RunOptionsError> {
    match b.duplex_stream_rx {
        None => Err(RunOptionsError::StreamRxEmpty),
        Some(rx) => Ok(RunOptions {
            wait_termination_request_token: b.wait_termination_request_token,
            duplex_stream_rx: rx,
            maybe_cpu_usage_metrics_tx: b.maybe_cpu_usage_metrics_tx,
        }),
    }
}

/// Whatever setters are called on a new builder, and in whatever order,
/// `build` fails exactly when no stream was given; otherwise the options
/// hold the last value each setter set, and the defaults (waiting for the
/// termination request, no CPU reports) where a setter was not called.
pub proof fn lemma_builder_settings<R, T>(ss: Seq<RunOptionsSetting<R, T>>)
    ensures
        ({
            let b = apply_settings(initial_builder::<R, T>(), ss);
            &&& b.duplex_stream_rx == last_stream_set(ss)
            &&& b.wait_termination_request_token == (match last_wait_set(ss) {
                Some(v) => v,
                None => true,
            })
            &&& b.maybe_cpu_usage_metrics_tx == (match last_cpu_tx_set(ss) {
                Some(v) => v,
                None => None,
            })
            &&& (built(b) is Err <==> last_stream_set(ss) is None)
            &&& built(b) matches Ok(o) ==> o.duplex_stream_rx == last_stream_set(ss)->0
                && o.wait_termination_request_token == b.wait_termination_request_token
                && o.maybe_cpu_usage_metrics_tx == b.maybe_cpu_usage_metrics_tx
        }),
    decreases ss.len(),
{
    if ss.len() > 0 {
        lemma_builder_settings::<R, T>(ss.drop_last());
    }
}

impl<R, T> RunOptionsBuilder<R, T> {
    /// Waits for the termination request token; no stream, no CPU reports.
    pub fn new() -> (b: Self)
        ensures
            b.wait_termination_request_token,
            b.duplex_stream_rx is None,
            b.maybe_cpu_usage_metrics_tx is None,
            b == initial_builder::<R, T>(),
    {
        RunOptionsBuilder { wait_termination_request_token: true, duplex_stream_rx: None, maybe_cpu_usage_metrics_tx: None }
    }

    pub fn wait_termination_request_token(self, val: bool) -> (b: Self)
        ensures
            b.wait_termination_request_token == val,
            b.duplex_stream_rx == self.duplex_stream_rx,
            b.maybe_cpu_usage_metrics_tx == self.maybe_cpu_usage_metrics_tx,
            b == apply_setting(self, RunOptionsSetting::WaitTerminationRequestToken(val)),
    {
        RunOptionsBuilder { wait_termination_request_token: val, ..self }
    }

    pub fn stream_rx(self, val: R) -> (b: Self)
        ensures
            b.wait_termination_request_token == self.wait_termination_request_token,
            b.duplex_stream_rx == Some(val),
            b.maybe_cpu_usage_metrics_tx == self.maybe_cpu_usage_metrics_tx,
            b == apply_setting(self, RunOptionsSetting::StreamRx(val)),
    {
        RunOptionsBuilder { duplex_stream_rx: Some(val), ..self }
    }

    pub fn cpu_usage_metrics_tx(self, val: Option<T>) -> (b: Self)
        ensures
            b.wait_termination_request_token == self.wait_termination_request_token,
            b.duplex_stream_rx == self.duplex_stream_rx,
            b.maybe_cpu_usage_metrics_tx == val,
            b == apply_setting(self, RunOptionsSetting::CpuUsageMetricsTx(val)),
    {
        RunOptionsBuilder { maybe_cpu_usage_metrics_tx: val, ..self }
    }

    /// The options, once the stream of connections is given.
    pub fn build(self) -> (r: Result<RunOptions<R, T>, RunOptionsError>)
        ensures
            r == built(self),
            match self.duplex_stream_rx {
                None => r == Err::<RunOptions<R, T>, RunOptionsError>(RunOptionsError::StreamRxEmpty),
                Some(rx) => r == Ok::<RunOptions<R, T>, RunOptionsError>(RunOptions {
                    wait_termination_request_token: self.wait_termination_request_token,
                    duplex_stream_rx: rx,
                    maybe_cpu_usage_metrics_tx: self.maybe_cpu_usage_metrics_tx,
                }),
            },
    {
        match self.duplex_stream_rx {
            None => Err(RunOptionsError::StreamRxEmpty),
            Some(rx) => Ok(RunOptions {
                wait_termination_request_token: self.wait_termination_request_token,
                duplex_stream_rx: rx,
                maybe_cpu_usage_metrics_tx: self.maybe_cpu_usage_metrics_tx,
            }),
        }
    }
}

/// The pieces of `s` between the characters `c`, as `str::split` gives
/// them: `n` characters `c` make `n + 1` pieces, some of them empty.
pub open spec fn split_on(s: Seq<char>, c: char) -> Seq<Seq<char>>
    decreases s.len(),
{
    if s.len() == 0 {
        seq![Seq::empty()]
    } else {
        let r = split_on(s.drop_last(), c);
        if s.last() == c {
            r.push(Seq::empty())
        } else {
            r.update(r.len() - 1, r.last().push(s.last()))
        }
    }
}

proof fn lemma_split_on_nonempty(s: Seq<char>, c: char)
    ensures
        split_on(s, c).len() >= 1,
    decreases s.len(),
{
    if s.len() > 0 {
        lemma_split_on_nonempty(s.drop_last(), c);
    }
}

/// Splits `s` at every character `c`, as `str::split` does.
pub fn split_at_char(s: &str, c: char) -> (parts: Vec<String>)
    ensures
        parts@.map_values(|p: String| p@) == split_on(s@, c),
{
    let n = s.unicode_len();
    let mut parts: Vec<String> = Vec::new();
    let mut start: usize = 0;
    let mut i: usize = 0;
    proof {
        assert(parts@.map_values(|p: String| p@) =~= Seq::<Seq<char>>::empty());
        assert(s@.subrange(0, 0) =~= Seq::<char>::empty());
        assert(split_on(s@.subrange(0, 0), c) == seq![Seq::<char>::empty()]);
        assert(parts@.map_values(|p: String| p@) + seq![s@.subrange(0, 0)]
            =~= split_on(s@.subrange(0, 0), c));
    }
    while i < n
        invariant
            start <= i <= n,
            n == s@.len(),
            parts@.map_values(|p: String| p@) + seq![s@.subrange(start as int, i as int)]
                == split_on(s@.subrange(0, i as int), c),
        decreases n - i,
    {
        let ghost pre = s@.subrange(0, i as int);
        let ghost next = s@.subrange(0, i + 1);
        assert(next.drop_last() =~= pre);
        assert(next.last() == s@[i as int]);
        proof {
            lemma_split_on_nonempty(pre, c);
        }
        let ch = s.get_char(i);
        let ghost before = parts@.map_values(|p: String| p@);
        let ghost x = s@.subrange(start as int, i as int);
        let ghost sp = split_on(pre, c);
        assert(before + seq![x] == sp);
        if ch == c {
            let piece = s.substring_char(start, i);
            parts.push(String::from_str(piece));
            start = i + 1;
            proof {
                assert(parts@.map_values(|p: String| p@) =~= before.push(x));
                assert(s@.subrange(start as int, i + 1) =~= Seq::<char>::empty());
                assert(split_on(next, c) == sp.push(Seq::<char>::empty()));
                assert(before.push(x) + seq![Seq::<char>::empty()] =~= (before + seq![x]).push(Seq::<char>::empty()));
            }
        } else {
            proof {
                assert(s@.subrange(start as int, i + 1) =~= x.push(ch));
                assert(split_on(next, c) == sp.update(sp.len() - 1, sp.last().push(ch)));
                assert((before + seq![x]).last() == x);
                assert(before + seq![x.push(ch)] =~= (before + seq![x]).update(before.len() as int, x.push(ch)));
            }
        }
        i = i + 1;
    }
    let piece = s.substring_char(start, n);
    let ghost before = parts@.map_values(|p: String| p@);
    parts.push(String::from_str(piece));
    proof {
        assert(parts@.map_values(|p: String| p@) =~= before + seq![piece@]);
        assert(s@.subrange(0, n as int) =~= s@);
    }
    parts
}

/// The arguments V8 is given for the flags in `V8_FLAGS`: none when the
/// variable is empty, else an empty program name followed by the flags, as
/// the pieces between spaces.
pub fn v8_flag_args(flags: &str) -> (args: Vec<String>)
    ensures
        flags@.len() == 0 ==> args@.len() == 0,
        flags@.len() > 0 ==> args@.map_values(|a: String| a@) == seq![Seq::<char>::empty()] + split_on(flags@, ' '),
{
    let mut args: Vec<String> = Vec::new();
    if flags.unicode_len() == 0 {
        return args;
    }
    args.push(String::new());
    let mut pieces = split_at_char(flags, ' ');
    let ghost first = args@.map_values(|a: String| a@);
    let ghost rest = pieces@.map_values(|p: String| p@);
    args.append(&mut pieces);
    proof {
        assert(first =~= seq![Seq::<char>::empty()]);
        assert(args@.map_values(|a: String| a@) =~= first + rest);
    }
    args
}

/// Whether V8 ignored any of the flags: it hands back the arguments it did
/// not take, and the empty program name always.
pub fn v8_flags_unrecognized(ignored: &Vec<String>) -> (b: bool)
    ensures
        b == !(ignored@.len() == 1 && ignored@[0]@ == Seq::<char>::empty()),
{
    let only_name = ignored.len() == 1 && ignored[0].as_str().unicode_len() == 0;
    proof {
        if ignored@.len() == 1 && ignored@[0]@.len() == 0 {
            assert(ignored@[0]@ =~= Seq::<char>::empty());
        }
    }
    !only_name
}

/// What a worker's runtime has just done while running its main module.
#[derive(Debug, Clone, Copy, PartialEq, Eq, Structural)]
pub enum RunStage {
    /// Loaded the main module (and, with an inspector, waited for a session).
    Loaded,
    /// Evaluated the main module, with the event loop running meanwhile.
    Evaluated,
    /// Dispatched the `load` event.
    LoadDispatched,
    /// Ran the event loop to its end.
    EventLoopDone,
    /// Dispatched the `unload` event.
    UnloadDispatched,
}

/// What a worker's runtime does next.
#[derive(Debug, Clone, Copy, PartialEq, Eq, Structural)]
pub enum RunStep {
    /// Evaluate the main module, running the event loop meanwhile.
    Evaluate,
    /// Dispatch the `load` event.
    DispatchLoad,
    /// Run the event loop to its end.
    RunEventLoop,
    /// Dispatch the `unload` event.
    DispatchUnload,
    /// Stop: with success, or with the error of the stage that failed; and
    /// raise the runtime's terminated flag, which every way out of a run does.
    Finish { ok: bool, raise_terminated: bool },
}

/// What the runtime knows when a stage is over: whether it succeeded,
/// whether termination was requested, whether the event loop has completed
/// with every promise resolved, whether an inspector is attached, and
/// whether the worker is a user worker.
#[derive(Debug, Clone, Copy, PartialEq, Eq, Structural)]
pub struct RunFacts {
    pub ok: bool,
    pub termination_requested: bool,
    pub settled: bool,
    pub has_inspector: bool,
    pub is_user_worker: bool,
}

/// The step after a stage: a failed stage stops the run with its error; a
/// termination requested while an inspector session was awaited gives up at
/// once; a module that settles while evaluated is done; `load` is not
/// dispatched once termination is requested; only main and events workers
/// get `unload`.
pub open spec fn next_run_step(done: RunStage, f: RunFacts) -> RunStep {
    if !f.ok {
        RunStep::Finish { ok: false, raise_terminated: true }
    } else {
        match done {
            RunStage::Loaded => if f.has_inspector && f.termination_requested {
                RunStep::Finish { ok: true, raise_terminated: true }
            } else {
                RunStep::Evaluate
            },
            RunStage::Evaluated => if f.settled {
                RunStep::Finish { ok: true, raise_terminated: true }
            } else if !f.termination_requested {
                RunStep::DispatchLoad
            } else {
                RunStep::RunEventLoop
            },
            RunStage::LoadDispatched => RunStep::RunEventLoop,
            RunStage::EventLoopDone => if f.is_user_worker {
                RunStep::Finish { ok: true, raise_terminated: true }
            } else {
                RunStep::DispatchUnload
            },
            RunStage::UnloadDispatched => RunStep::Finish { ok: true, raise_terminated: true },
        }
    }
}

/// Chooses the step after a stage (see `next_run_step`).
pub fn run_step(done: RunStage, f: RunFacts) -> (s: RunStep)
    ensures
        s == next_run_step(done, f),
{
    if !f.ok {
        return RunStep::Finish { ok: false, raise_terminated: true };
    }
    match done {
        RunStage::Loaded => if f.has_inspector && f.termination_requested {
            RunStep::Finish { ok: true, raise_terminated: true }
        } else {
            RunStep::Evaluate
        },
        RunStage::Evaluated => if f.settled {
            RunStep::Finish { ok: true, raise_terminated: true }
        } else if !f.termination_requested {
            RunStep::DispatchLoad
        } else {
            RunStep::RunEventLoop
        },
        RunStage::LoadDispatched => RunStep::RunEventLoop,
        RunStage::EventLoopDone => if f.is_user_worker {
            RunStep::Finish { ok: true, raise_terminated: true }
        } else {
            RunStep::DispatchUnload
        },
        RunStage::UnloadDispatched => RunStep::Finish { ok: true, raise_terminated: true },
    }
}

/// The stage a step ends in, when it is no finish.
pub open spec fn stage_after(s: RunStep) -> Option<RunStage> {
    match s {
        RunStep::Evaluate => Some(RunStage::Evaluated),
        RunStep::DispatchLoad => Some(RunStage::LoadDispatched),
        RunStep::RunEventLoop => Some(RunStage::EventLoopDone),
        RunStep::DispatchUnload => Some(RunStage::UnloadDispatched),
        RunStep::Finish { .. } => None,
    }
}

/// How many stages at most are left after a stage.
pub open spec fn stages_left(done: RunStage) -> nat {
    match done {
        RunStage::Loaded => 4,
        RunStage::Evaluated => 3,
        RunStage::LoadDispatched => 2,
        RunStage::EventLoopDone => 1,
        RunStage::UnloadDispatched => 0,
    }
}

/// A run always ends: every step leads to a later stage or to the finish,
/// so a run takes at most five stages, and every finish raises the
/// terminated flag. A user worker never gets `unload`;
/// `load` is never dispatched once termination is requested; and a stage
/// that failed always ends the run with its error.
pub proof fn lemma_run_ends(done: RunStage, f: RunFacts)
    ensures
        stage_after(next_run_step(done, f)) matches Some(next) ==> stages_left(next) < stages_left(done),
        f.is_user_worker ==> next_run_step(done, f) != RunStep::DispatchUnload,
        f.termination_requested ==> next_run_step(done, f) != RunStep::DispatchLoad,
        !f.ok ==> next_run_step(done, f) == (RunStep::Finish { ok: false, raise_terminated: true }),
        next_run_step(done, f) matches RunStep::Finish { raise_terminated, .. } ==> raise_terminated,
{
}

/// The CPU time a run reports, in whole milliseconds.
pub fn cpu_time_ms(accumulated_ns: i64) -> (ms: i64)
    ensures
        ms == ns_to_ms(accumulated_ns),
{
    accumulated_ns / 1_000_000
}

/// The `beforeunload` thresholds of a user worker not reached yet: CPU time
/// in milliseconds, and memory in bytes.
#[derive(Debug, Clone, Copy, PartialEq, Eq, Structural)]
pub struct BeforeunloadThresholds {
    pub cpu_ms: Option<u64>,
    pub memory_bytes: Option<u64>,
}

/// What one turn of a user worker's event loop does about its resources:
/// dispatch `beforeunload` for CPU time or memory, and whether the memory in
/// use is at least half of the limit (none: no limit, leave the flag).
#[derive(Debug, Clone, Copy, PartialEq, Eq, Structural)]
pub struct ResourceActions {
    pub beforeunload_cpu: bool,
    pub beforeunload_memory: bool,
    pub mem_reached_half: Option<bool>,
}

/// A threshold that is reached is cleared, so that it fires once; it
/// dispatches `beforeunload` unless the worker is terminated already (and,
/// for memory, unless the memory limit was exceeded already).
pub open spec fn resource_turn(
    t: BeforeunloadThresholds,
    accumulated_cpu_ns: i64,
    total_bytes: usize,
    limit: Option<usize>,
    terminated: bool,
    mem_exceeded: bool,
) -> (BeforeunloadThresholds, ResourceActions) {
    let cpu_hit = match t.cpu_ms {
        Some(ms) => accumulated_cpu_ns >= ms * 1000000,
        None => false,
    };
    let mem_hit = match t.memory_bytes {
        Some(b) => total_bytes >= b,
        None => false,
    };
    (
        BeforeunloadThresholds {
            cpu_ms: if cpu_hit { None } else { t.cpu_ms },
            memory_bytes: if mem_hit { None } else { t.memory_bytes },
        },
        ResourceActions {
            beforeunload_cpu: cpu_hit && !terminated,
            beforeunload_memory: mem_hit && !terminated && !mem_exceeded,
            mem_reached_half: match limit {
                Some(l) => Some(total_bytes >= l / 2),
                None => None,
            },
        },
    )
}

/// Decides what a turn of a user worker's event loop does about its CPU
/// time and memory (see `resource_turn`).
pub fn resource_actions(
    thresholds: &mut BeforeunloadThresholds,
    accumulated_cpu_ns: i64,
    total_bytes: usize,
    limit: Option<usize>,
    terminated: bool,
    mem_exceeded: bool,
) -> (a: ResourceActions)
    ensures
        (*final(thresholds), a) == resource_turn(*old(thresholds), accumulated_cpu_ns, total_bytes, limit, terminated, mem_exceeded),
{
    let cpu_hit = match thresholds.cpu_ms {
        Some(ms) => (accumulated_cpu_ns as i128) >= (ms as i128) * 1000000,
        None => false,
    };
    let mem_hit = match thresholds.memory_bytes {
        Some(b) => (total_bytes as u64) >= b,
        None => false,
    };
    if cpu_hit {
        thresholds.cpu_ms = None;
    }
    if mem_hit {
        thresholds.memory_bytes = None;
    }
    ResourceActions {
        beforeunload_cpu: cpu_hit && !terminated,
        beforeunload_memory: mem_hit && !terminated && !mem_exceeded,
        mem_reached_half: match limit {
            Some(l) => Some(total_bytes >= l / 2),
            None => None,
        },
    }
}

/// How polling the event loop went in a turn.
#[derive(Debug, Clone, Copy, PartialEq, Eq, Structural)]
pub enum LoopPoll {
    /// The loop was not polled: a user worker polls only when woken.
    NotPolled,
    Pending,
    Failed,
    Done,
}

/// How a turn of the event loop ends.
#[derive(Debug, Clone, Copy, PartialEq, Eq, Structural)]
pub enum LoopTurn {
    /// Wait to be woken again.
    Pending,
    /// The loop is over.
    Done,
    /// "execution terminated": termination was requested while the main
    /// module was still being evaluated.
    Terminated,
    /// The loop failed.
    Failed,
}

/// A user worker polls its event loop only when woken; any other worker
/// every turn.
pub open spec fn polls_event_loop(is_user_worker: bool, woken: bool) -> bool {
    !is_user_worker || woken
}

/// How a turn ends: a loop that was polled, has work left and whose
/// termination was requested stops (with an error while the main module is
/// evaluated); a finished loop stops, unless it is to wait for the
/// termination request that has not come.
pub open spec fn loop_turn(
    poll: LoopPoll,
    termination_requested: bool,
    evaluating: bool,
    wait_termination_request_token: bool,
) -> LoopTurn {
    if poll == LoopPoll::Pending && termination_requested {
        if evaluating { LoopTurn::Terminated } else { LoopTurn::Done }
    } else {
        match poll {
            LoopPoll::NotPolled => LoopTurn::Pending,
            LoopPoll::Pending => LoopTurn::Pending,
            LoopPoll::Failed => LoopTurn::Failed,
            LoopPoll::Done => if wait_termination_request_token && !termination_requested {
                LoopTurn::Pending
            } else {
                LoopTurn::Done
            },
        }
    }
}

/// Whether this turn polls the event loop (see `polls_event_loop`).
pub fn poll_event_loop_now(is_user_worker: bool, woken: bool) -> (b: bool)
    ensures
        b == polls_event_loop(is_user_worker, woken),
{
    !is_user_worker || woken
}

/// Decides how a turn of the event loop ends (see `loop_turn`).
pub fn event_loop_turn(
    poll: LoopPoll,
    termination_requested: bool,
    evaluating: bool,
    wait_termination_request_token: bool,
) -> (t: LoopTurn)
    ensures
        t == loop_turn(poll, termination_requested, evaluating, wait_termination_request_token),
{
    match poll {
        LoopPoll::Pending => if termination_requested {
            if evaluating { LoopTurn::Terminated } else { LoopTurn::Done }
        } else {
            LoopTurn::Pending
        },
        LoopPoll::NotPolled => LoopTurn::Pending,
        LoopPoll::Failed => LoopTurn::Failed,
        LoopPoll::Done => if wait_termination_request_token && !termination_requested {
            LoopTurn::Pending
        } else {
            LoopTurn::Done
        },
    }
}

/// Each `beforeunload` threshold fires at most once: a turn that dispatches
/// it clears it, and a cleared threshold never dispatches again.
pub proof fn lemma_beforeunload_once(
    t: BeforeunloadThresholds,
    cpu1: i64,
    bytes1: usize,
    cpu2: i64,
    bytes2: usize,
    limit: Option<usize>,
    terminated: bool,
    mem_exceeded: bool,
)
    ensures
        ({
            let (t1, a1) = resource_turn(t, cpu1, bytes1, limit, terminated, mem_exceeded);
            let (_, a2) = resource_turn(t1, cpu2, bytes2, limit, terminated, mem_exceeded);
            &&& a1.beforeunload_cpu ==> t1.cpu_ms is None && !a2.beforeunload_cpu
            &&& a1.beforeunload_memory ==> t1.memory_bytes is None && !a2.beforeunload_memory
        }),
{
}

/// A worker that waits for its termination request does not end its event
/// loop before the request comes, unless the loop fails.
pub proof fn lemma_loop_waits_for_termination(poll: LoopPoll, evaluating: bool)
    ensures
        loop_turn(poll, false, evaluating, true) != LoopTurn::Done,
        loop_turn(poll, false, evaluating, true) != LoopTurn::Terminated,
{
}

/// A worker that is not to wait for its termination request ends the turn
/// once its event loop has finished, and so does one whose termination was
/// requested; a finished loop never fails or reports a termination.
pub proof fn lemma_finished_loop_ends(termination_requested: bool, evaluating: bool, wait_termination_request_token: bool)
    ensures
        loop_turn(LoopPoll::Done, termination_requested, evaluating, false) == LoopTurn::Done,
        loop_turn(LoopPoll::Done, true, evaluating, wait_termination_request_token) == LoopTurn::Done,
        loop_turn(LoopPoll::Done, termination_requested, evaluating, wait_termination_request_token) != LoopTurn::Failed,
        loop_turn(LoopPoll::Done, termination_requested, evaluating, wait_termination_request_token) != LoopTurn::Terminated,
{
}

/// A loop with work left stops once termination is requested: with an
/// error while the main module is still evaluated, else as finished; until
/// then, and while a user worker is not woken, the turn waits. A failed
/// loop fails the turn.
pub proof fn lemma_pending_loop_turns(evaluating: bool, wait_termination_request_token: bool, termination_requested: bool)
    ensures
        loop_turn(LoopPoll::Pending, true, true, wait_termination_request_token) == LoopTurn::Terminated,
        loop_turn(LoopPoll::Pending, true, false, wait_termination_request_token) == LoopTurn::Done,
        loop_turn(LoopPoll::Pending, false, evaluating, wait_termination_request_token) == LoopTurn::Pending,
        loop_turn(LoopPoll::NotPolled, termination_requested, evaluating, wait_termination_request_token) == LoopTurn::Pending,
        loop_turn(LoopPoll::Failed, termination_requested, evaluating, wait_termination_request_token) == LoopTurn::Failed,
{
}

/// The heap limits an isolate is created with, in bytes: a user worker's
/// heap may grow from nothing to its memory limit; the main and the events
/// worker get their configured initial and maximum sizes, when a maximum is
/// configured.
pub open spec fn heap_limits_of(is_user_worker: bool, memory_limit_mb: u64, initial_mib: u64, max_mib: u64) -> Option<(int, int)> {
    if is_user_worker {
        Some((0, memory_limit_mb * MIB))
    } else if max_mib > 0 {
        Some((initial_mib * MIB, max_mib * MIB))
    } else {
        None
    }
}

/// Chooses the heap limits of an isolate (see `heap_limits_of`).
pub fn heap_limits(is_user_worker: bool, memory_limit_mb: u64, initial_mib: u64, max_mib: u64) -> (r: Option<(u64, u64)>)
    requires
        is_user_worker ==> memory_limit_mb * MIB <= u64::MAX,
        !is_user_worker && max_mib > 0 ==> initial_mib * MIB <= u64::MAX && max_mib * MIB <= u64::MAX,
    ensures
        match r {
            Some((a, b)) => heap_limits_of(is_user_worker, memory_limit_mb, initial_mib, max_mib) == Some((a as int, b as int)),
            None => heap_limits_of(is_user_worker, memory_limit_mb, initial_mib, max_mib) is None,
        },
{
    if is_user_worker {
        Some((mib_to_bytes(0), mib_to_bytes(memory_limit_mb)))
    } else if max_mib > 0 {
        Some((mib_to_bytes(initial_mib), mib_to_bytes(max_mib)))
    } else {
        None
    }
}

/// The media type of a module's source, as its name or content tells.
#[derive(Debug, Clone, Copy, PartialEq, Eq, Structural)]
pub enum MediaType {
    JavaScript,
    Jsx,
    Mjs,
    Cjs,
    TypeScript,
    Mts,
    Cts,
    Dts,
    Dmts,
    Dcts,
    Tsx,
    Json,
    Wasm,
    TsBuildInfo,
    SourceMap,
    Unknown,
}

/// How the runtime loads a module.
#[derive(Debug, Clone, Copy, PartialEq, Eq, Structural)]
pub enum ModuleType {
    JavaScript,
    Json,
}

/// "module type not supported".
#[derive(Debug, Clone, Copy, PartialEq, Eq, Structural)]
pub struct UnsupportedMediaType {
    pub media_type: MediaType,
}

/// How a module of a media type is loaded: JavaScript and TypeScript (in
/// any flavour, JSX included) as JavaScript, JSON as JSON, nothing else.
pub open spec fn module_type_of(m: MediaType) -> Option<ModuleType> {
    match m {
        MediaType::JavaScript | MediaType::Mjs | MediaType::Cjs | MediaType::Jsx | MediaType::TypeScript
        | MediaType::Mts | MediaType::Cts | MediaType::Dts | MediaType::Dmts | MediaType::Dcts
        | MediaType::Tsx => Some(ModuleType::JavaScript),
        MediaType::Json => Some(ModuleType::Json),
        _ => None,
    }
}

/// Chooses how a module is loaded (see `module_type_of`).
pub fn get_module_type(media_type: MediaType) -> (r: Result<ModuleType, UnsupportedMediaType>)
    ensures
        match r {
            Ok(t) => module_type_of(media_type) == Some(t),
            Err(e) => module_type_of(media_type) is None && e.media_type == media_type,
        },
{
    match media_type {
        MediaType::JavaScript | MediaType::Mjs | MediaType::Cjs | MediaType::Jsx | MediaType::TypeScript
        | MediaType::Mts | MediaType::Cts | MediaType::Dts | MediaType::Dmts | MediaType::Dcts
        | MediaType::Tsx => Ok(ModuleType::JavaScript),
        MediaType::Json => Ok(ModuleType::Json),
        _ => Err(UnsupportedMediaType { media_type }),
    }
}

} // verus!
