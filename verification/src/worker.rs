//! Decisions about a worker's life: what supervises it, what it is called,
//! how a request is relayed to it, and the plain data exchanged with it.
use vstd::prelude::*;
use crate::units::digit_char;
use vstd::string::StringExecFns;

verus! {

/// The kinds of worker.
#[derive(Debug, Clone, Copy, PartialEq, Eq, Structural)]
pub enum WorkerKind {
    UserWorker,
    MainWorker,
    EventsWorker,
}

/// What ends a worker's runtime from outside.
#[derive(Debug, Clone, Copy, PartialEq, Eq, Structural)]
pub enum TerminationWatch {
    /// A supervisor (user workers).
    Supervisor,
    /// A task that waits for the termination token and then interrupts the isolate.
    TokenWatcher,
    /// Nothing.
    Nothing,
}

/// A user worker is supervised; any other worker is watched through its
/// termination token, when it has one.
pub fn termination_watch(kind: WorkerKind, has_termination_token: bool) -> (w: TerminationWatch)
    ensures
        w == (if kind == WorkerKind::UserWorker {
            TerminationWatch::Supervisor
        } else if has_termination_token {
            TerminationWatch::TokenWatcher
        } else {
            TerminationWatch::Nothing
        }),
{
    match kind {
        WorkerKind::UserWorker => TerminationWatch::Supervisor,
        _ => if has_termination_token { TerminationWatch::TokenWatcher } else { TerminationWatch::Nothing },
    }
}

/// When a worker's runtime has ended: whether to wait for the token watcher
/// before saying so, and whether to tell the pool the worker `key` shut down.
pub fn after_run(kind: WorkerKind, has_termination_token: bool, key: Option<u128>, has_pool: bool) -> (r: (bool, Option<u128>))
    ensures
        r.0 == (has_termination_token && kind != WorkerKind::UserWorker),
        r.1 == (if has_pool { key } else { None }),
{
    let wait = has_termination_token && !matches!(kind, WorkerKind::UserWorker);
    (wait, if has_pool { key } else { None })
}

/// The name of a worker's thread, for a user worker from its key (a UUID).
pub open spec fn worker_name(kind: WorkerKind, key: Option<u128>) -> Seq<char> {
    match kind {
        WorkerKind::UserWorker => match key {
            Some(k) => "sb-iso-"@ + uuid_text(k),
            None => "isolate-worker-unknown"@,
        },
        WorkerKind::MainWorker => "main-worker"@,
        WorkerKind::EventsWorker => "events-worker"@,
    }
}

/// The lowercase hexadecimal digit of `d`.
pub open spec fn hex_char(d: nat) -> char {
    if d < 10 { digit_char(d) }
    else if d == 10 { 'a' }
    else if d == 11 { 'b' }
    else if d == 12 { 'c' }
    else if d == 13 { 'd' }
    else if d == 14 { 'e' }
    else { 'f' }
}

/// The last `n` hexadecimal digits of `k`, most significant first.
pub open spec fn hex_digits(k: nat, n: nat) -> Seq<char>
    decreases n,
{
    if n == 0 {
        Seq::empty()
    } else {
        hex_digits(k / 16, (n - 1) as nat).push(hex_char(k % 16))
    }
}

/// A UUID in its hyphenated form: 32 hexadecimal digits in groups of 8, 4,
/// 4, 4 and 12.
pub open spec fn uuid_text(k: u128) -> Seq<char> {
    let h = hex_digits(k as nat, 32);
    h.subrange(0, 8) + seq!['-'] + h.subrange(8, 12) + seq!['-'] + h.subrange(12, 16) + seq!['-']
        + h.subrange(16, 20) + seq!['-'] + h.subrange(20, 32)
}

fn hex_digit_str(d: u128) -> (s: &'static str)
    requires
        d < 16,
    ensures
        s@ == seq![hex_char(d as nat)],
{
    if d < 10 {
        let s = crate::units::digit_str(d as u64);
        s
    } else if d == 10 {
        proof { reveal_strlit("a"); }
        "a"
    } else if d == 11 {
        proof { reveal_strlit("b"); }
        "b"
    } else if d == 12 {
        proof { reveal_strlit("c"); }
        "c"
    } else if d == 13 {
        proof { reveal_strlit("d"); }
        "d"
    } else if d == 14 {
        proof { reveal_strlit("e"); }
        "e"
    } else {
        proof { reveal_strlit("f"); }
        "f"
    }
}

fn push_hex_range(s: &mut String, nib: &Vec<u8>, lo: usize, hi: usize, Ghost(h): Ghost<Seq<char>>)
    requires
        lo <= hi <= 32,
        nib@.len() == 32,
        h.len() == 32,
        forall|i: int| 0 <= i < 32 ==> #[trigger] nib@[i] < 16,
        forall|i: int| 0 <= i < 32 ==> #[trigger] h[i] == hex_char(nib@[31 - i] as nat),
    ensures
        final(s)@ == old(s)@ + h.subrange(lo as int, hi as int),
{
    let ghost s0 = s@;
    let mut i = lo;
    while i < hi
        invariant
            lo <= i <= hi,
            hi <= 32,
            nib@.len() == 32,
            h.len() == 32,
            forall|x: int| 0 <= x < 32 ==> #[trigger] nib@[x] < 16,
            forall|x: int| 0 <= x < 32 ==> #[trigger] h[x] == hex_char(nib@[31 - x] as nat),
            s@ == s0 + h.subrange(lo as int, i as int),
        decreases hi - i,
    {
        assert(nib@[31 - i as int] < 16);
        let d = hex_digit_str(nib[31 - i] as u128);
        s.append(d);
        i = i + 1;
        assert(s@ =~= s0 + h.subrange(lo as int, i as int));
    }
}

/// Appends the hyphenated form of a UUID (see `uuid_text`).
pub fn push_uuid(s: &mut String, k: u128)
    ensures
        final(s)@ == old(s)@ + uuid_text(k),
{
    let ghost h = hex_digits(k as nat, 32);
    let mut nib: Vec<u8> = Vec::new();
    let mut x: u128 = k;
    let mut j: usize = 0;
    let ghost mut tail: Seq<char> = Seq::empty();
    while j < 32
        invariant
            j <= 32,
            nib@.len() == j,
            tail.len() == j,
            h == hex_digits(x as nat, (32 - j) as nat) + tail,
            forall|i: int| 0 <= i < j ==> nib@[i] < 16 && tail[j - 1 - i] == hex_char(nib@[i] as nat),
        decreases 32 - j,
    {
        let d = (x % 16) as u8;
        proof {
            assert(hex_digits(x as nat, (32 - j) as nat) == hex_digits((x / 16) as nat, (32 - j - 1) as nat).push(hex_char((x % 16) as nat)));
            assert(hex_digits(x as nat, (32 - j) as nat) + tail =~= hex_digits((x / 16) as nat, (32 - j - 1) as nat) + (seq![hex_char((x % 16) as nat)] + tail));
            tail = seq![hex_char((x % 16) as nat)] + tail;
        }
        nib.push(d);
        x = x / 16;
        j = j + 1;
    }
    assert(h =~= tail);
    assert forall|i: int| 0 <= i < 32 implies #[trigger] h[i] == hex_char(nib@[31 - i] as nat) by {
        assert(tail[i] == hex_char(nib@[31 - i] as nat));
    }
    proof { reveal_strlit("-"); }
    push_hex_range(s, &nib, 0, 8, Ghost(h));
    s.append("-");
    push_hex_range(s, &nib, 8, 12, Ghost(h));
    s.append("-");
    push_hex_range(s, &nib, 12, 16, Ghost(h));
    s.append("-");
    push_hex_range(s, &nib, 16, 20, Ghost(h));
    s.append("-");
    push_hex_range(s, &nib, 20, 32, Ghost(h));
    assert(s@ =~= old(s)@ + uuid_text(k));
}

/// The name of a worker (see `worker_name`).
pub fn worker_name_of(kind: WorkerKind, key: Option<u128>) -> (s: String)
    ensures
        s@ == worker_name(kind, key),
{
    proof {
        reveal_strlit("sb-iso-");
        reveal_strlit("isolate-worker-unknown");
        reveal_strlit("main-worker");
        reveal_strlit("events-worker");
    }
    match kind {
        WorkerKind::UserWorker => match key {
            Some(k) => {
                let mut s = String::new();
                s.append("sb-iso-");
                push_uuid(&mut s, k);
                s
            },
            None => String::from_str("isolate-worker-unknown"),
        },
        WorkerKind::MainWorker => String::from_str("main-worker"),
        WorkerKind::EventsWorker => String::from_str("events-worker"),
    }
}

/// The HTTP status that accepts an upgrade.
pub const SWITCHING_PROTOCOLS: u16 = 101;

/// The HTTP status a request gets when its upgrade was refused.
pub const BAD_GATEWAY: u16 = 502;

/// Whether a worker's response can go back as it is: a request that asked
/// for an upgrade needs a response that accepts that very upgrade; otherwise
/// it gets `BAD_GATEWAY`.
pub fn upgrade_response_ok(requested: Option<&String>, accepted: Option<&String>) -> (ok: bool)
    ensures
        ok == match requested {
            None => true,
            Some(r) => match accepted {
                Some(a) => a@ == r@,
                None => false,
            },
        },
{
    match requested {
        None => true,
        Some(r) => match accepted {
            Some(a) => *a == *r,
            None => false,
        },
    }
}

/// Whether the connection is handed over to the upgraded protocol: the
/// worker switched protocols, to the one asked for.
pub fn relay_upgrade(requested: &String, accepted: Option<&String>, status: u16) -> (relay: bool)
    ensures
        relay == (status == SWITCHING_PROTOCOLS && match accepted {
            Some(a) => a@ == requested@,
            None => false,
        }),
{
    match accepted {
        Some(a) => status == SWITCHING_PROTOCOLS && *a == *requested,
        None => false,
    }
}

/// A request to a user worker, as JavaScript gives it.
pub struct UserWorkerRequest {
    pub method: String,
    pub url: String,
    pub headers: Vec<(String, String)>,
    pub has_body: bool,
}

/// The options of a user worker to create.
pub struct UserWorkerOptions {
    pub service_path: String,
    pub memory_limit_mb: u64,
    pub worker_timeout_ms: u64,
    pub no_module_cache: bool,
    pub import_map_path: Option<String>,
    pub env_vars: Vec<(String, String)>,
}

/// The key of a created user worker.
pub struct CreateUserWorkerResult {
    pub key: String,
}

/// The graph checks to make.
#[derive(Debug, Clone, Copy, PartialEq, Eq, Structural)]
pub struct GraphValidOptions {
    pub check_js: bool,
    pub follow_type_only: bool,
    pub is_vendoring: bool,
}

/// The payload of a boot event: boot time in milliseconds.
#[derive(Debug, Clone, Copy, PartialEq, Eq, Structural)]
pub struct BootEventPayload {
    pub boot_time: usize,
}

/// The payload of a boot failure event.
pub struct BootFailureEventPayload {
    pub msg: String,
}

/// The events of the edge runtime.
pub enum EdgeEventTypes {
    Boot(BootEventPayload),
    BootFailure(BootFailureEventPayload),
}

/// An error thrown by JavaScript, as its message.
pub struct EdgeRuntimeError {
    pub message: String,
}

impl EdgeRuntimeError {
    /// Errors are the same when their messages are.
    pub fn same_as(&self, other: &Self) -> (b: bool)
        ensures
            b == (self.message@ == other.message@),
    {
        self.message == other.message
    }
}

/// An error of the Deno runtime, as its message.
pub struct DenoRuntimeError {
    pub message: String,
}

impl DenoRuntimeError {
    /// Errors are the same when their messages are.
    pub fn same_as(&self, other: &Self) -> (b: bool)
        ensures
            b == (self.message@ == other.message@),
    {
        self.message == other.message
    }
}

/// How a call into the edge runtime ended.
pub enum EdgeCallResult {
    Unknown,
    TimeOut,
    ModuleEvaluationTimedOut,
    HeapLimitReached,
    Completed,
    ErrorThrown(EdgeRuntimeError),
}

/// A permission check failed. The edge runtime's checks never fail: its
/// workers are sandboxed in other ways.
#[derive(Debug)]
pub struct PermissionDenied;

/// The permissions of the edge runtime's workers: everything is allowed.
#[derive(Debug, Clone, Copy, PartialEq, Eq, Structural)]
pub struct Permissions;

impl Permissions {
    pub fn new() -> (p: Self)
        ensures
            p == Permissions,
    {
        Permissions
    }

    /// Reading an environment variable is allowed.
    pub fn check_env(&mut self, var: &str) -> (r: Result<(), PermissionDenied>)
        ensures
            r is Ok,
    {
        Ok(())
    }

    /// Reading all environment variables is allowed.
    pub fn check_env_all(&mut self) -> (r: Result<(), PermissionDenied>)
        ensures
            r is Ok,
    {
        Ok(())
    }

    /// Reading a file without telling its path is allowed.
    pub fn check_read_blind(&mut self, path: &str, display: &str, api_name: &str) -> (r: Result<(), PermissionDenied>)
        ensures
            r is Ok,
    {
        Ok(())
    }

    /// High-resolution time is allowed.
    pub fn allow_hrtime(&mut self) -> (b: bool)
        ensures
            b,
    {
        true
    }

    /// Reaching a URL is allowed.
    pub fn check_net_url(&mut self, url: &str, api_name: &str) -> (r: Result<(), PermissionDenied>)
        ensures
            r is Ok,
    {
        Ok(())
    }

    /// Reading a path is allowed.
    pub fn check_read(&mut self, path: &str, api_name: &str) -> (r: Result<(), PermissionDenied>)
        ensures
            r is Ok,
    {
        Ok(())
    }

    /// Writing a path is allowed.
    pub fn check_write(&mut self, path: &str, api_name: &str) -> (r: Result<(), PermissionDenied>)
        ensures
            r is Ok,
    {
        Ok(())
    }

    /// Reaching a host and port is allowed.
    pub fn check_net(&mut self, host: &str, port: Option<u16>, api_name: &str) -> (r: Result<(), PermissionDenied>)
        ensures
            r is Ok,
    {
        Ok(())
    }
}

/// What a worker may do, kind by kind: `None` grants nothing of that kind,
/// `Some` of an empty list grants all of it, `Some` of names grants those.
pub struct PermissionGrants {
    pub allow_all: bool,
    pub allow_env: Option<Vec<String>>,
    pub allow_net: Option<Vec<String>>,
    pub allow_ffi: Option<Vec<String>>,
    pub allow_read: Option<Vec<String>>,
    pub allow_run: Option<Vec<String>>,
    pub allow_sys: Option<Vec<String>>,
    pub allow_write: Option<Vec<String>>,
    pub allow_import: Option<Vec<String>>,
}

/// A grant, as lists of names.
pub open spec fn grant_view(g: Option<Vec<String>>) -> Option<Seq<Seq<char>>> {
    match g {
        Some(v) => Some(v@.map_values(|s: String| s@)),
        None => None,
    }
}

/// All of a kind.
fn grant_all() -> (g: Option<Vec<String>>)
    ensures
        grant_view(g) == Some(Seq::<Seq<char>>::empty()),
{
    let v: Vec<String> = Vec::new();
    assert(v@.map_values(|s: String| s@) =~= Seq::<Seq<char>>::empty());
    Some(v)
}

/// The permissions a worker starts with: the main and the events worker may
/// do anything; a user worker may use the environment, the network, files,
/// and imports, may learn the host's name and nothing else of the system,
/// and may neither load native libraries nor run programs.
pub fn get_default_permisisons(kind: WorkerKind) -> (p: PermissionGrants)
    ensures
        grant_view(p.allow_env) == Some(Seq::<Seq<char>>::empty()),
        grant_view(p.allow_net) == Some(Seq::<Seq<char>>::empty()),
        grant_view(p.allow_read) == Some(Seq::<Seq<char>>::empty()),
        grant_view(p.allow_write) == Some(Seq::<Seq<char>>::empty()),
        grant_view(p.allow_import) == Some(Seq::<Seq<char>>::empty()),
        kind != WorkerKind::UserWorker ==> {
            &&& p.allow_all
            &&& grant_view(p.allow_ffi) == Some(Seq::<Seq<char>>::empty())
            &&& grant_view(p.allow_run) == Some(Seq::<Seq<char>>::empty())
            &&& grant_view(p.allow_sys) == Some(Seq::<Seq<char>>::empty())
        },
        kind == WorkerKind::UserWorker ==> {
            &&& !p.allow_all
            &&& p.allow_ffi is None
            &&& p.allow_run is None
            &&& grant_view(p.allow_sys) == Some(seq!["hostname"@])
        },
{
    match kind {
        WorkerKind::UserWorker => {
            let mut sys: Vec<String> = Vec::new();
            let host = "hostname".to_string();
            sys.push(host);
            assert(sys@.map_values(|s: String| s@) =~= seq!["hostname"@]);
            PermissionGrants {
                allow_all: false,
                allow_env: grant_all(),
                allow_net: grant_all(),
                allow_ffi: None,
                allow_read: grant_all(),
                allow_run: None,
                allow_sys: Some(sys),
                allow_write: grant_all(),
                allow_import: grant_all(),
            }
        },
        _ => PermissionGrants {
            allow_all: true,
            allow_env: grant_all(),
            allow_net: grant_all(),
            allow_ffi: grant_all(),
            allow_read: grant_all(),
            allow_run: grant_all(),
            allow_sys: grant_all(),
            allow_write: grant_all(),
            allow_import: grant_all(),
        },
    }
}

/// What events of a worker say about where they come from.
pub struct EventMetadata {
    pub service_path: Option<String>,
    pub execution_id: Option<u128>,
}

/// The metadata of a worker's events: a user worker's service path and key;
/// nothing for the other workers.
pub fn get_event_metadata(kind: WorkerKind, service_path: Option<&String>, key: Option<u128>) -> (m: EventMetadata)
    ensures
        kind == WorkerKind::UserWorker ==> m.execution_id == key && match service_path {
            Some(p) => m.service_path matches Some(q) && q@ == p@,
            None => m.service_path is None,
        },
        kind != WorkerKind::UserWorker ==> m.service_path is None && m.execution_id is None,
{
    match kind {
        WorkerKind::UserWorker => EventMetadata {
            service_path: match service_path {
                Some(p) => Some(p.clone()),
                None => None,
            },
            execution_id: key,
        },
        _ => EventMetadata { service_path: None, execution_id: None },
    }
}

/// Pairs of strings, as text.
pub open spec fn pairs_view(v: Seq<(String, String)>) -> Seq<(Seq<char>, Seq<char>)> {
    v.map_values(|p: (String, String)| (p.0@, p.1@))
}

/// The span attributes of a worker: its service path, its key and the
/// attributes the user gave, in this order.
pub open spec fn span_attrs(
    service_path: Option<String>,
    execution_id: Option<u128>,
    extra: Seq<(String, String)>,
) -> Seq<(Seq<char>, Seq<char>)> {
    service_path_attr(service_path) + key_attr(execution_id) + pairs_view(extra)
}

/// The service path attribute, when there is a path.
pub open spec fn service_path_attr(service_path: Option<String>) -> Seq<(Seq<char>, Seq<char>)> {
    match service_path {
        Some(sp) => seq![("worker.service_path"@, sp@)],
        None => Seq::empty(),
    }
}

/// The key attribute, when there is a key.
pub open spec fn key_attr(execution_id: Option<u128>) -> Seq<(Seq<char>, Seq<char>)> {
    match execution_id {
        Some(id) => seq![("worker.key"@, uuid_text(id))],
        None => Seq::empty(),
    }
}

/// The attributes each span of a worker carries, as key-value pairs.
pub struct WorkerSpanAttrs {
    pub attrs: Vec<(String, String)>,
}

impl WorkerSpanAttrs {
    /// Collects a worker's span attributes from its event metadata and the
    /// attributes the user gave, if any.
    pub fn from_event_metadata(meta: &EventMetadata, otel_attributes: Option<&Vec<(String, String)>>) -> (a: Self)
        ensures
            pairs_view(a.attrs@) == span_attrs(meta.service_path, meta.execution_id, match otel_attributes {
                Some(v) => v@,
                None => Seq::empty(),
            }),
    {
        proof {
            reveal_strlit("worker.service_path");
            reveal_strlit("worker.key");
        }
        let mut attrs: Vec<(String, String)> = Vec::new();
        match &meta.service_path {
            Some(sp) => {
                attrs.push((String::from_str("worker.service_path"), sp.clone()));
                assert(pairs_view(attrs@) =~= seq![("worker.service_path"@, sp@)]);
            },
            None => {
                assert(pairs_view(attrs@) =~= Seq::empty());
            },
        }
        let ghost first = attrs@;
        assert(pairs_view(first) == service_path_attr(meta.service_path));
        match meta.execution_id {
            Some(id) => {
                let mut s = String::new();
                push_uuid(&mut s, id);
                attrs.push((String::from_str("worker.key"), s));
                assert(pairs_view(attrs@) =~= pairs_view(first) + seq![("worker.key"@, uuid_text(id))]);
            },
            None => {
                assert(pairs_view(attrs@) =~= pairs_view(first) + Seq::empty());
            },
        }
        let ghost head = attrs@;
        assert(pairs_view(head) =~= service_path_attr(meta.service_path) + key_attr(meta.execution_id));
        let ghost extra: Seq<(String, String)> = match otel_attributes {
            Some(v) => v@,
            None => Seq::empty(),
        };
        match otel_attributes {
            Some(v) => {
                let mut i: usize = 0;
                while i < v.len()
                    invariant
                        i <= v@.len(),
                        extra == v@,
                        pairs_view(attrs@) == pairs_view(head) + pairs_view(v@.subrange(0, i as int)),
                    decreases v.len() - i,
                {
                    let (k, x) = (v[i].0.clone(), v[i].1.clone());
                    proof {
                        assert(pairs_view(v@.subrange(0, i + 1)) =~= pairs_view(v@.subrange(0, i as int)).push((v@[i as int].0@, v@[i as int].1@)));
                    }
                    let ghost before = attrs@;
                    attrs.push((k, x));
                    proof {
                        assert(pairs_view(attrs@) =~= pairs_view(before).push((v@[i as int].0@, v@[i as int].1@)));
                        assert(pairs_view(attrs@) =~= pairs_view(head) + pairs_view(v@.subrange(0, i + 1)));
                    }
                    i = i + 1;
                }
                assert(v@.subrange(0, v@.len() as int) =~= v@);
            },
            None => {
                assert(pairs_view(Seq::<(String, String)>::empty()) =~= Seq::empty());
                assert(pairs_view(attrs@) =~= pairs_view(head) + pairs_view(extra));
            },
        }
        WorkerSpanAttrs { attrs }
    }
}

} // verus!
