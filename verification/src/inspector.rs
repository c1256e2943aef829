//! The inspector server's decisions: which endpoint a request reaches, what
//! the endpoints answer, and which inspectors are registered.
use vstd::prelude::*;
use vstd::string::{StrSliceExecFns, StringExecFns};
use crate::assoc::{assoc, in_keys, unique_keys, lemma_assoc_index, lemma_assoc_push, lemma_assoc_remove};
use crate::json::{entry_pairs, json_wf, model, push_entry, JsonEntry, JsonModel, JsonValue};
use crate::policy::str_eq;
use crate::units::{decimal, push_decimal};
use crate::urls::{has_prefix, opt_view, parse_url, str_has_prefix, url_parsed};
use crate::worker::{push_uuid, uuid_text};

verus! {

/// The endpoints of the inspector server.
#[derive(Debug, Clone, Copy, PartialEq, Eq, Structural)]
pub enum InspectorRoute {
    /// `GET /ws/<id>`: a debugger session with an inspector.
    WebSocket,
    /// `GET /json/version`.
    Version,
    /// `GET /json` and `GET /json/list`: the inspectors registered.
    List,
    /// Anything else.
    NotFound,
}

/// The endpoint a request with this method and path reaches.
pub open spec fn route_of(is_get: bool, path: Seq<char>) -> InspectorRoute {
    if !is_get {
        InspectorRoute::NotFound
    } else if has_prefix(path, "/ws/"@) {
        InspectorRoute::WebSocket
    } else if path == "/json/version"@ {
        InspectorRoute::Version
    } else if path == "/json"@ || path == "/json/list"@ {
        InspectorRoute::List
    } else {
        InspectorRoute::NotFound
    }
}

fn starts_with_ws(path: &str) -> (b: bool)
    ensures
        b == has_prefix(path@, "/ws/"@),
{
    str_has_prefix(path, "/ws/")
}

/// Routes a request of the inspector server.
pub fn inspector_route(is_get: bool, path: &str) -> (r: InspectorRoute)
    ensures
        r == route_of(is_get, path@),
{
    if !is_get {
        InspectorRoute::NotFound
    } else if starts_with_ws(path) {
        InspectorRoute::WebSocket
    } else if str_eq(path, "/json/version") {
        InspectorRoute::Version
    } else if str_eq(path, "/json") || str_eq(path, "/json/list") {
        InspectorRoute::List
    } else {
        InspectorRoute::NotFound
    }
}

/// What `uuid::Uuid::parse_str` makes of `s`, as the UUID's 128 bits.
pub uninterp spec fn uuid_parsed(s: Seq<char>) -> Option<u128>;

/// Parses a UUID with `uuid::Uuid::parse_str`; the result is named
/// `uuid_parsed`. Of it this states what the crate documents: the
/// hyphenated lowercase form of a UUID parses back to it.
#[verifier::external_body]
fn parse_uuid(s: &str) -> (r: Option<u128>)
    ensures
        r == uuid_parsed(s@),
        forall|k: u128| s@ == #[trigger] uuid_text(k) ==> r == Some(k),
{
    uuid::Uuid::parse_str(s).ok().map(|u| u.as_u128())
}

/// The inspector a `/ws/` path names: the UUID after the prefix, when it
/// parses.
pub open spec fn ws_target(path: Seq<char>) -> Option<u128> {
    if has_prefix(path, "/ws/"@) {
        uuid_parsed(path.subrange(4, path.len() as int))
    } else {
        None
    }
}

/// Reads the inspector a `/ws/` path names.
pub fn ws_inspector_id(path: &str) -> (r: Option<u128>)
    ensures
        r == ws_target(path@),
        forall|k: u128| path@ == "/ws/"@ + #[trigger] uuid_text(k) ==> r == Some(k),
{
    proof {
        reveal_strlit("/ws/");
    }
    if !starts_with_ws(path) {
        proof {
            assert forall|k: u128| path@ == "/ws/"@ + #[trigger] uuid_text(k) implies false by {
                assert(path@.subrange(0, 4) =~= "/ws/"@);
            }
        }
        return None;
    }
    let n = path.unicode_len();
    let rest = path.substring_char(4, n);
    let r = parse_uuid(rest);
    proof {
        assert forall|k: u128| path@ == "/ws/"@ + #[trigger] uuid_text(k) implies r == Some(k) by {
            assert(rest@ =~= uuid_text(k));
        }
    }
    r
}

/// An inspector registered with the server: the address it listens on (as
/// text), its id, the name of the worker thread it belongs to, the URL of
/// the worker's main module, and whether the worker waits for a session.
pub struct InspectorTarget {
    pub host: String,
    pub id: u128,
    pub thread_name: Option<String>,
    pub url: String,
    pub wait_for_session: bool,
}

/// The `" - <thread name>"` part of a title, when the thread has a name.
pub open spec fn thread_part(name: Option<String>) -> Seq<char> {
    match name {
        Some(n) => " - "@ + n@,
        None => Seq::empty(),
    }
}

/// The debugger URL of an inspector, reached through `host`.
pub open spec fn ws_url(host: Seq<char>, id: u128) -> Seq<char> {
    "ws://"@ + host + "/ws/"@ + uuid_text(id)
}

/// The DevTools front end URL of an inspector, reached through `host`.
pub open spec fn frontend_url(host: Seq<char>, id: u128) -> Seq<char> {
    "devtools://devtools/bundled/js_app.html?ws="@ + host + "/ws/"@ + uuid_text(id)
        + "&experiments=true&v8only=true"@
}

/// The title of an inspector of the process `pid`.
pub open spec fn title(thread_name: Option<String>, pid: u32) -> Seq<char> {
    "EdgeRuntime"@ + thread_part(thread_name) + " [pid: "@ + decimal(pid as nat) + "]"@
}

/// The description of an inspector that `/json/list` gives, reached
/// through `host`.
pub open spec fn metadata(t: InspectorTarget, host: Seq<char>, pid: u32) -> JsonModel {
    JsonModel::Object(map![
        "description"@ => JsonModel::Str("EdgeRuntime"@),
        "devtoolsFrontendUrl"@ => JsonModel::Str(frontend_url(host, t.id)),
        "faviconUrl"@ => JsonModel::Str("https://supabase.com/favicon/favicon.ico"@),
        "id"@ => JsonModel::Str(uuid_text(t.id)),
        "title"@ => JsonModel::Str(title(t.thread_name, pid)),
        "type"@ => JsonModel::Str("node"@),
        "url"@ => JsonModel::Str(t.url@),
        "webSocketDebuggerUrl"@ => JsonModel::Str(ws_url(host, t.id))
    ])
}

/// The host an inspector is described through: the one the request named,
/// or else the address it listens on.
pub open spec fn described_host(t: InspectorTarget, host: Option<Seq<char>>) -> Seq<char> {
    match host {
        Some(h) => h,
        None => t.host@,
    }
}

/// The text of an optional string slice.
pub open spec fn host_view(host: Option<&str>) -> Option<Seq<char>> {
    match host {
        Some(h) => Some(h@),
        None => None,
    }
}

/// The descriptions of the inspectors `ts`, in order, each reached through
/// `host` or else the address it listens on.
pub open spec fn list_model(ts: Seq<InspectorTarget>, host: Option<Seq<char>>, pid: u32) -> Seq<JsonModel> {
    Seq::new(ts.len(), |i: int| metadata(ts[i], described_host(ts[i], host), pid))
}

/// A string holding `s`.
fn owned(s: &str) -> (r: String)
    ensures
        r@ == s@,
{
    String::from_str(s)
}

impl InspectorTarget {
    /// The debugger URL of this inspector, reached through `host`.
    pub fn get_websocket_debugger_url(&self, host: &str) -> (r: String)
        ensures
            r@ == ws_url(host@, self.id),
    {
        proof {
            reveal_strlit("ws://");
            reveal_strlit("/ws/");
        }
        let mut s = owned("ws://");
        s.append(host);
        s.append("/ws/");
        push_uuid(&mut s, self.id);
        s
    }

    /// The DevTools front end URL of this inspector, reached through `host`.
    pub fn get_frontend_url(&self, host: &str) -> (r: String)
        ensures
            r@ == frontend_url(host@, self.id),
    {
        let mut s = owned("devtools://devtools/bundled/js_app.html?ws=");
        s.append(host);
        s.append("/ws/");
        push_uuid(&mut s, self.id);
        s.append("&experiments=true&v8only=true");
        s
    }

    /// The title of this inspector in the process `pid`.
    pub fn get_title(&self, pid: u32) -> (r: String)
        ensures
            r@ == title(self.thread_name, pid),
    {
        proof {
            reveal_strlit(" - ");
        }
        let mut s = owned("EdgeRuntime");
        match &self.thread_name {
            Some(n) => {
                s.append(" - ");
                s.append(n.as_str());
            },
            None => {},
        }
        s.append(" [pid: ");
        push_decimal(&mut s, pid as u64);
        s.append("]");
        s
    }

    /// The description `/json/list` gives of this inspector, reached through
    /// the host the request named, or else the address it listens on.
    pub fn get_json_metadata(&self, host: Option<&str>, pid: u32) -> (r: JsonValue)
        ensures
            json_wf(r),
            model(r) == metadata(*self, described_host(*self, host_view(host)), pid),
    {
        let h: &str = match host {
            Some(h) => h,
            None => self.host.as_str(),
        };
        proof {
            reveal_strlit("description");
            reveal_strlit("devtoolsFrontendUrl");
            reveal_strlit("faviconUrl");
            reveal_strlit("id");
            reveal_strlit("title");
            reveal_strlit("type");
            reveal_strlit("url");
            reveal_strlit("webSocketDebuggerUrl");
        }
        let mut es: Vec<JsonEntry> = Vec::new();
        proof {
            assert(entry_pairs(es@) =~= Seq::<(Seq<char>, JsonModel)>::empty());
            assert(assoc(entry_pairs(es@)) =~= Map::<Seq<char>, JsonModel>::empty());
        }
        assert("description"@.len() == 11 && "devtoolsFrontendUrl"@.len() == 19 && "faviconUrl"@.len() == 10
            && "id"@.len() == 2 && "title"@.len() == 5 && "type"@.len() == 4 && "url"@.len() == 3
            && "webSocketDebuggerUrl"@.len() == 20);
        let mut id = String::new();
        push_uuid(&mut id, self.id);
        push_entry(&mut es, owned("description"), JsonValue::Str(owned("EdgeRuntime")));
        push_entry(&mut es, owned("devtoolsFrontendUrl"), JsonValue::Str(self.get_frontend_url(h)));
        push_entry(&mut es, owned("faviconUrl"), JsonValue::Str(owned("https://supabase.com/favicon/favicon.ico")));
        push_entry(&mut es, owned("id"), JsonValue::Str(id));
        push_entry(&mut es, owned("title"), JsonValue::Str(self.get_title(pid)));
        push_entry(&mut es, owned("type"), JsonValue::Str(owned("node")));
        push_entry(&mut es, owned("url"), JsonValue::Str(self.url.clone()));
        push_entry(&mut es, owned("webSocketDebuggerUrl"), JsonValue::Str(self.get_websocket_debugger_url(h)));
        JsonValue::Object(es)
    }
}

/// The answer of `/json/version`: the server's name, the protocol version
/// and the version of V8.
pub fn version_info(name: &str, v8_version: &str) -> (r: JsonValue)
    ensures
        json_wf(r),
        model(r) == JsonModel::Object(map![
            "Browser"@ => JsonModel::Str(name@),
            "Protocol-Version"@ => JsonModel::Str("1.3"@),
            "V8-Version"@ => JsonModel::Str(v8_version@)
        ]),
{
    proof {
        reveal_strlit("Browser");
        reveal_strlit("Protocol-Version");
        reveal_strlit("V8-Version");
    }
    let mut es: Vec<JsonEntry> = Vec::new();
    proof {
        assert(entry_pairs(es@) =~= Seq::<(Seq<char>, JsonModel)>::empty());
        assert(assoc(entry_pairs(es@)) =~= Map::<Seq<char>, JsonModel>::empty());
    }
    assert("Browser"@.len() == 7 && "Protocol-Version"@.len() == 16 && "V8-Version"@.len() == 10);
    push_entry(&mut es, owned("Browser"), JsonValue::Str(owned(name)));
    push_entry(&mut es, owned("Protocol-Version"), JsonValue::Str(owned("1.3")));
    push_entry(&mut es, owned("V8-Version"), JsonValue::Str(owned(v8_version)));
    JsonValue::Object(es)
}

/// The host that the `Host` header of a request to the inspector server
/// names: its host and, unless it is the default one, its port, as
/// `url::Url` reads `http://` followed by the header.
pub open spec fn request_host_of(header: Option<Seq<char>>) -> Option<Seq<char>> {
    match header {
        None => None,
        Some(h) => match url_parsed("http://"@ + h) {
            Err(_) => None,
            Ok(u) => match (u.host, u.port) {
                (Some(host), Some(port)) => Some(host + ":"@ + decimal(port as nat)),
                (Some(host), None) => Some(host),
                _ => None,
            },
        },
    }
}

/// Reads the host that the `Host` header of a request names, if it makes a
/// valid URL.
pub fn request_host(header: Option<&str>) -> (r: Option<String>)
    ensures
        opt_view(r) == request_host_of(host_view(header)),
{
    let h = match header {
        Some(h) => h,
        None => return None,
    };
    proof {
        reveal_strlit("http://");
        reveal_strlit(":");
    }
    let mut full = owned("http://");
    full.append(h);
    match parse_url(full.as_str()) {
        Err(_) => None,
        Ok(u) => match (u.host, u.port) {
            (Some(mut host), Some(port)) => {
                host.append(":");
                push_decimal(&mut host, port as u64);
                Some(host)
            },
            (Some(host), None) => Some(host),
            _ => None,
        },
    }
}

/// How the server answers a debugger's `/ws/` request.
#[derive(Debug, Clone, Copy, PartialEq, Eq, Structural)]
pub enum WsAnswer {
    /// 400, "Malformed inspector UUID".
    Malformed,
    /// 404, "Invalid inspector UUID".
    Unknown,
    /// A session with this inspector, once the connection is upgraded.
    Connect(u128),
}

/// The inspectors registered with the server, no id twice.
pub struct InspectorRegistry {
    pub targets: Vec<InspectorTarget>,
}

/// The registered inspectors as id-inspector pairs.
pub open spec fn target_pairs(ts: Seq<InspectorTarget>) -> Seq<(u128, InspectorTarget)> {
    ts.map_values(|t: InspectorTarget| (t.id, t))
}

impl InspectorRegistry {
    /// The inspectors by id.
    pub open spec fn view_map(&self) -> Map<u128, InspectorTarget> {
        assoc(target_pairs(self.targets@))
    }

    /// No id is registered twice.
    pub open spec fn wf(&self) -> bool {
        unique_keys(target_pairs(self.targets@))
    }

    pub fn new() -> (r: Self)
        ensures
            r.wf(),
            r.view_map() == Map::<u128, InspectorTarget>::empty(),
    {
        let r = InspectorRegistry { targets: Vec::new() };
        assert(r.view_map() =~= Map::<u128, InspectorTarget>::empty());
        r
    }

    fn position(&self, id: u128) -> (r: Option<usize>)
        requires
            self.wf(),
        ensures
            match r {
                Some(i) => i < self.targets@.len() && self.targets@[i as int].id == id,
                None => !self.view_map().contains_key(id),
            },
    {
        let mut i: usize = 0;
        while i < self.targets.len()
            invariant
                i <= self.targets@.len(),
                forall|j: int| 0 <= j < i ==> self.targets@[j].id != id,
            decreases self.targets.len() - i,
        {
            if self.targets[i].id == id {
                return Some(i);
            }
            i = i + 1;
        }
        proof {
            let ps = target_pairs(self.targets@);
            if in_keys(ps, id) {
                let j = choose|j: int| 0 <= j < ps.len() && ps[j].0 == id;
                assert(self.targets@[j].id == ps[j].0);
            }
        }
        None
    }

    /// Whether an inspector with this id is registered.
    pub fn contains(&self, id: u128) -> (b: bool)
        requires
            self.wf(),
        ensures
            b == self.view_map().contains_key(id),
    {
        match self.position(id) {
            Some(i) => {
                proof {
                    lemma_assoc_index(target_pairs(self.targets@), i as int);
                }
                true
            },
            None => false,
        }
    }

    /// Registers an inspector; its id must be new (the server stops on an
    /// id it has already).
    pub fn register(&mut self, target: InspectorTarget)
        requires
            old(self).wf(),
            !old(self).view_map().contains_key(target.id),
        ensures
            final(self).wf(),
            final(self).view_map() == old(self).view_map().insert(target.id, target),
    {
        let ghost before = self.targets@;
        let ghost t = target;
        proof {
            lemma_assoc_push(target_pairs(before), t.id, t);
        }
        self.targets.push(target);
        proof {
            assert(target_pairs(self.targets@) =~= target_pairs(before).push((t.id, t)));
        }
    }

    /// Forgets the inspector `id`, whose worker went away.
    pub fn deregister(&mut self, id: u128)
        requires
            old(self).wf(),
        ensures
            final(self).wf(),
            final(self).view_map() == old(self).view_map().remove(id),
    {
        match self.position(id) {
            Some(i) => {
                let ghost before = self.targets@;
                proof {
                    lemma_assoc_remove(target_pairs(before), i as int);
                }
                self.targets.remove(i);
                proof {
                    assert(target_pairs(self.targets@) =~= target_pairs(before).remove(i as int));
                }
            },
            None => {
                assert(self.view_map().remove(id) =~= self.view_map());
            },
        }
    }

    /// How a debugger's request for `path` is answered: a path whose UUID
    /// does not parse is malformed; one that no registered inspector has is
    /// unknown.
    pub fn ws_answer(&self, path: &str) -> (r: WsAnswer)
        requires
            self.wf(),
        ensures
            r == (match ws_target(path@) {
                None => WsAnswer::Malformed,
                Some(id) => if self.view_map().contains_key(id) { WsAnswer::Connect(id) } else { WsAnswer::Unknown },
            }),
            forall|k: u128| path@ == "/ws/"@ + #[trigger] uuid_text(k) && self.view_map().contains_key(k)
                ==> r == WsAnswer::Connect(k),
    {
        match ws_inspector_id(path) {
            None => WsAnswer::Malformed,
            Some(id) => if self.contains(id) { WsAnswer::Connect(id) } else { WsAnswer::Unknown },
        }
    }

    /// What `/json/list` answers: the description of each inspector
    /// registered, reached through `host` when the request named one.
    pub fn json_list(&self, host: Option<&str>, pid: u32) -> (r: JsonValue)
        ensures
            json_wf(r),
            model(r) == JsonModel::Array(list_model(self.targets@, host_view(host), pid)),
    {
        let ghost hv = host_view(host);
        let mut items: Vec<JsonValue> = Vec::new();
        let mut i: usize = 0;
        while i < self.targets.len()
            invariant
                i <= self.targets@.len(),
                items@.len() == i,
                hv == host_view(host),
                forall|j: int| 0 <= j < i ==> json_wf(#[trigger] items@[j])
                    && model(items@[j]) == metadata(self.targets@[j], described_host(self.targets@[j], hv), pid),
            decreases self.targets.len() - i,
        {
            let m = self.targets[i].get_json_metadata(host, pid);
            items.push(m);
            i = i + 1;
        }
        let ghost iv = items@;
        let r = JsonValue::Array(items);
        proof {
            let want = list_model(self.targets@, hv, pid);
            let mr = model(r);
            assert(mr is Array);
            assert forall|j: int| 0 <= j < want.len() implies mr->Array_0[j] == want[j] by {
                assert(mr->Array_0[j] == model(iv[j]));
            }
            assert(mr->Array_0 =~= want);
            assert(mr == JsonModel::Array(want));
        }
        r
    }
}

/// Deregistering an inspector undoes registering it.
pub proof fn lemma_register_then_deregister(m: Map<u128, InspectorTarget>, t: InspectorTarget)
    requires
        !m.contains_key(t.id),
    ensures
        m.insert(t.id, t).remove(t.id) == m,
{
    assert(m.insert(t.id, t).remove(t.id) =~= m);
}

} // verus!
