use edge_runtime_core::server::{
    deadlines_on_termination, drained, exit_plan, inspector_mode, main_inspector_mode, otel_kind, ExitPlan,
    InspectorMode, OtelKind, ServerFlags, StopAccepting,
};

#[test]
fn exit_plan_drains_with_a_deadline() {
    assert_eq!(
        exit_plan(false, 30, None, 5, 5),
        ExitPlan::Drain { deadline_sec: 30, stop_accepting: StopAccepting::Now }
    );
    assert_eq!(
        exit_plan(false, 30, Some(250), 5, 4),
        ExitPlan::Drain { deadline_sec: 30, stop_accepting: StopAccepting::After(250) }
    );
}

#[test]
fn exit_plan_without_a_deadline_exits() {
    assert_eq!(exit_plan(false, 0, None, 5, 4), ExitPlan::ExitWithWarning);
    assert_eq!(exit_plan(false, 0, None, 5, 5), ExitPlan::Exit);
    assert_eq!(exit_plan(true, 30, None, 5, 4), ExitPlan::Exit);
}

#[test]
fn termination_token_makes_the_server_wait_without_end() {
    let (d, k) = deadlines_on_termination(0, Some(100));
    assert_eq!((d, k), (u64::MAX, Some(u64::MAX)));
    assert_eq!(
        exit_plan(false, d, k, 3, 1),
        ExitPlan::Drain { deadline_sec: u64::MAX, stop_accepting: StopAccepting::Never }
    );
    assert_eq!(deadlines_on_termination(0, None), (u64::MAX, None));
    assert_eq!(deadlines_on_termination(15, Some(100)), (15, Some(100)));
}

#[test]
fn draining_ends_when_all_is_answered() {
    assert!(drained(0, 4, 4));
    assert!(!drained(1, 4, 4));
    assert!(!drained(0, 4, 3));
}

#[test]
fn inspector_keys() {
    assert!(matches!(inspector_mode("inspect"), Ok(InspectorMode::Inspect)));
    assert!(matches!(inspector_mode("inspect-brk"), Ok(InspectorMode::WithBreak)));
    assert!(matches!(inspector_mode("inspect-wait"), Ok(InspectorMode::WithWait)));
    match inspector_mode("inspect-now") {
        Err(e) => assert_eq!(e.key, "inspect-now"),
        Ok(_) => panic!("an unknown key was taken"),
    }
    assert!(!InspectorMode::Inspect.should_wait_for_session());
    assert!(InspectorMode::WithBreak.should_wait_for_session());
    assert!(InspectorMode::WithWait.should_wait_for_session());
}

#[test]
fn main_worker_inspector_is_plain() {
    assert_eq!(main_inspector_mode(true, Some(InspectorMode::WithBreak)), Some(InspectorMode::Inspect));
    assert_eq!(main_inspector_mode(false, Some(InspectorMode::WithBreak)), None);
    assert_eq!(main_inspector_mode(true, None), None);
}

#[test]
fn otel_kinds() {
    assert_eq!(otel_kind(&vec![]), None);
    assert_eq!(otel_kind(&vec![OtelKind::Event]), Some(OtelKind::Event));
    assert_eq!(otel_kind(&vec![OtelKind::Main, OtelKind::Event]), Some(OtelKind::Both));
}

#[test]
fn default_flags_are_off() {
    let f = ServerFlags::default_flags();
    assert!(!f.no_module_cache && !f.allow_main_inspector && !f.tcp_nodelay);
    assert_eq!(f.graceful_exit_deadline_sec, 0);
    assert_eq!(f.request_wait_timeout_ms, None);
}

use edge_runtime_core::server::{termination_order, TerminationTarget};

#[test]
fn termination_goes_from_events_to_main() {
    assert_eq!(
        termination_order(true, true),
        vec![TerminationTarget::EventWorker, TerminationTarget::Pool, TerminationTarget::MainWorker, TerminationTarget::Outbound]
    );
    assert_eq!(termination_order(false, false), vec![TerminationTarget::Pool, TerminationTarget::MainWorker]);
}
