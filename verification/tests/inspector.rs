use edge_runtime_core::inspector::{
    inspector_route, request_host, version_info, ws_inspector_id, InspectorRegistry, InspectorRoute,
    InspectorTarget, WsAnswer,
};
use edge_runtime_core::json::JsonValue;

const KEY: u128 = 0x67e5_5044_10b1_426f_9247_bb68_0e5f_e0c8;
const KEY_TEXT: &str = "67e55044-10b1-426f-9247-bb680e5fe0c8";

fn target(id: u128, thread_name: Option<&str>) -> InspectorTarget {
    InspectorTarget {
        host: "127.0.0.1:9229".to_string(),
        id,
        thread_name: thread_name.map(|s| s.to_string()),
        url: "file:///srv/main/index.ts".to_string(),
        wait_for_session: false,
    }
}

fn text_at(v: &JsonValue, key: &str) -> String {
    match v.get(&key.to_string()) {
        Some(JsonValue::Str(s)) => s.clone(),
        _ => panic!("no text under {key}"),
    }
}

#[test]
fn routes() {
    assert_eq!(inspector_route(true, "/ws/abc"), InspectorRoute::WebSocket);
    assert_eq!(inspector_route(true, "/json/version"), InspectorRoute::Version);
    assert_eq!(inspector_route(true, "/json"), InspectorRoute::List);
    assert_eq!(inspector_route(true, "/json/list"), InspectorRoute::List);
    assert_eq!(inspector_route(false, "/json"), InspectorRoute::NotFound);
    assert_eq!(inspector_route(true, "/ws"), InspectorRoute::NotFound);
    assert_eq!(inspector_route(true, "/"), InspectorRoute::NotFound);
}

#[test]
fn ws_paths_name_an_inspector_by_uuid() {
    assert_eq!(ws_inspector_id(&format!("/ws/{KEY_TEXT}")), Some(KEY));
    assert_eq!(ws_inspector_id("/ws/67e5504410b1426f9247bb680e5fe0c8"), Some(KEY));
    assert_eq!(ws_inspector_id("/ws/not-a-uuid"), None);
    assert_eq!(ws_inspector_id("/json"), None);
}

#[test]
fn urls_and_title() {
    let t = target(KEY, Some("sb-iso-worker"));
    assert_eq!(t.get_websocket_debugger_url("localhost:9229"), format!("ws://localhost:9229/ws/{KEY_TEXT}"));
    assert_eq!(
        t.get_frontend_url("localhost:9229"),
        format!("devtools://devtools/bundled/js_app.html?ws=localhost:9229/ws/{KEY_TEXT}&experiments=true&v8only=true")
    );
    assert_eq!(t.get_title(42), "EdgeRuntime - sb-iso-worker [pid: 42]");
    assert_eq!(target(KEY, None).get_title(7), "EdgeRuntime [pid: 7]");
}

#[test]
fn metadata_describes_the_inspector() {
    let t = target(KEY, None);
    let m = t.get_json_metadata(None, 3);
    assert_eq!(text_at(&m, "description"), "EdgeRuntime");
    assert_eq!(text_at(&m, "id"), KEY_TEXT);
    assert_eq!(text_at(&m, "type"), "node");
    assert_eq!(text_at(&m, "url"), "file:///srv/main/index.ts");
    assert_eq!(text_at(&m, "title"), "EdgeRuntime [pid: 3]");
    assert_eq!(text_at(&m, "faviconUrl"), "https://supabase.com/favicon/favicon.ico");
    assert_eq!(text_at(&m, "webSocketDebuggerUrl"), format!("ws://127.0.0.1:9229/ws/{KEY_TEXT}"));
    let named = t.get_json_metadata(Some("example.com"), 3);
    assert_eq!(text_at(&named, "webSocketDebuggerUrl"), format!("ws://example.com/ws/{KEY_TEXT}"));
}

#[test]
fn version_answer() {
    let v = version_info("sb-edge-runtime-inspector", "13.0.245.12");
    assert_eq!(text_at(&v, "Browser"), "sb-edge-runtime-inspector");
    assert_eq!(text_at(&v, "Protocol-Version"), "1.3");
    assert_eq!(text_at(&v, "V8-Version"), "13.0.245.12");
}

#[test]
fn registry_answers_debuggers() {
    let mut reg = InspectorRegistry::new();
    let t = target(KEY, None);
    let url = t.get_websocket_debugger_url("h:1");
    let path = url.strip_prefix("ws://h:1").unwrap().to_string();
    reg.register(t);
    assert!(reg.contains(KEY));
    assert_eq!(reg.ws_answer(&path), WsAnswer::Connect(KEY));
    assert_eq!(reg.ws_answer("/ws/00000000-0000-0000-0000-000000000001"), WsAnswer::Unknown);
    assert_eq!(reg.ws_answer("/ws/zzz"), WsAnswer::Malformed);
    reg.deregister(KEY);
    assert!(!reg.contains(KEY));
    assert_eq!(reg.ws_answer(&path), WsAnswer::Unknown);
}

#[test]
fn list_has_one_entry_per_inspector() {
    let mut reg = InspectorRegistry::new();
    reg.register(target(1, None));
    reg.register(target(2, Some("main")));
    match reg.json_list(None, 9) {
        JsonValue::Array(items) => {
            assert_eq!(items.len(), 2);
            assert_eq!(text_at(&items[0], "id"), "00000000-0000-0000-0000-000000000001");
            assert_eq!(text_at(&items[1], "title"), "EdgeRuntime - main [pid: 9]");
        }
        _ => panic!("the list is no array"),
    }
}

#[test]
fn host_header_as_url_reads_it() {
    assert_eq!(request_host(Some("localhost:9229")), Some("localhost:9229".to_string()));
    assert_eq!(request_host(Some("LocalHost:80")), Some("localhost".to_string()));
    assert_eq!(request_host(Some("[::1]:9229")), Some("[::1]:9229".to_string()));
    assert_eq!(request_host(Some("bad host")), None);
    assert_eq!(request_host(None), None);
}
