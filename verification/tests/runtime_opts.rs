use edge_runtime_core::runtime::{v8_flag_args, v8_flags_unrecognized, RunOptionsBuilder, RunOptionsError};
use edge_runtime_core::worker::{get_event_metadata, WorkerKind, WorkerSpanAttrs};

#[test]
fn run_options_need_a_stream() {
    let b: RunOptionsBuilder<u8, u16> = RunOptionsBuilder::new();
    assert!(b.wait_termination_request_token);
    assert!(matches!(b.build(), Err(RunOptionsError::StreamRxEmpty)));
    let built = RunOptionsBuilder::<u8, u16>::new()
        .wait_termination_request_token(false)
        .stream_rx(7)
        .cpu_usage_metrics_tx(Some(9))
        .build();
    match built {
        Ok(o) => {
            assert!(!o.wait_termination_request_token);
            assert_eq!(o.duplex_stream_rx, 7);
            assert_eq!(o.maybe_cpu_usage_metrics_tx, Some(9));
        }
        Err(_) => panic!("a stream was given"),
    }
}

#[test]
fn v8_flags_are_split_at_spaces() {
    assert!(v8_flag_args("").is_empty());
    assert_eq!(v8_flag_args("--max-old-space-size=64"), vec!["", "--max-old-space-size=64"]);
    assert_eq!(v8_flag_args("--a  --b"), vec!["", "--a", "", "--b"]);
    assert_eq!(v8_flag_args("--a "), vec!["", "--a", ""]);
    assert!(!v8_flags_unrecognized(&vec![String::new()]));
    assert!(v8_flags_unrecognized(&vec![String::new(), "--nope".to_string()]));
}

#[test]
fn event_metadata_names_user_workers_only() {
    let path = "/srv/fn".to_string();
    let m = get_event_metadata(WorkerKind::UserWorker, Some(&path), Some(5));
    assert_eq!(m.service_path, Some(path.clone()));
    assert_eq!(m.execution_id, Some(5));
    let main = get_event_metadata(WorkerKind::MainWorker, Some(&path), Some(5));
    assert_eq!(main.service_path, None);
    assert_eq!(main.execution_id, None);
}

#[test]
fn span_attributes_in_order() {
    let key: u128 = 0x67e5_5044_10b1_426f_9247_bb68_0e5f_e0c8;
    let m = get_event_metadata(WorkerKind::UserWorker, Some(&"/srv/fn".to_string()), Some(key));
    let extra = vec![("team".to_string(), "edge".to_string())];
    let a = WorkerSpanAttrs::from_event_metadata(&m, Some(&extra));
    assert_eq!(
        a.attrs,
        vec![
            ("worker.service_path".to_string(), "/srv/fn".to_string()),
            ("worker.key".to_string(), uuid::Uuid::from_u128(key).to_string()),
            ("team".to_string(), "edge".to_string()),
        ]
    );
    let none = get_event_metadata(WorkerKind::EventsWorker, None, None);
    assert!(WorkerSpanAttrs::from_event_metadata(&none, None).attrs.is_empty());
}

use edge_runtime_core::runtime::{cpu_usage_leave, reuse_cpu_timer, CPUUsage};

#[test]
fn cpu_time_adds_up_over_stays() {
    let (total, usage) = cpu_usage_leave(1_000, 5_000, Some(7_500), 300);
    assert_eq!(total, 3_800);
    assert_eq!(usage, CPUUsage { accumulated: 3_800, diff: 2_500 });
    // A clock that cannot be read counts as no time spent.
    let (total, usage) = cpu_usage_leave(3_800, 9_000, None, 0);
    assert_eq!(total, 3_800);
    assert_eq!(usage.diff, 0);
}

#[test]
fn cpu_timers_stay_with_their_thread() {
    assert!(reuse_cpu_timer(Some(4), 4));
    assert!(!reuse_cpu_timer(Some(4), 5));
    assert!(!reuse_cpu_timer(None, 4));
}

use edge_runtime_core::runtime::{cpu_time_ms, run_step, RunFacts, RunStage, RunStep};

fn facts(ok: bool, termination_requested: bool, settled: bool, is_user_worker: bool) -> RunFacts {
    RunFacts { ok, termination_requested, settled, has_inspector: false, is_user_worker }
}

#[test]
fn a_main_worker_run_goes_through_every_stage() {
    let f = facts(true, false, false, false);
    assert_eq!(run_step(RunStage::Loaded, f), RunStep::Evaluate);
    assert_eq!(run_step(RunStage::Evaluated, f), RunStep::DispatchLoad);
    assert_eq!(run_step(RunStage::LoadDispatched, f), RunStep::RunEventLoop);
    assert_eq!(run_step(RunStage::EventLoopDone, f), RunStep::DispatchUnload);
    assert_eq!(run_step(RunStage::UnloadDispatched, f), RunStep::Finish { ok: true, raise_terminated: true });
}

#[test]
fn user_workers_get_no_unload_and_settled_modules_stop_early() {
    let user = facts(true, false, false, true);
    assert_eq!(run_step(RunStage::EventLoopDone, user), RunStep::Finish { ok: true, raise_terminated: true });
    assert_eq!(run_step(RunStage::Evaluated, facts(true, false, true, true)), RunStep::Finish { ok: true, raise_terminated: true });
    assert_eq!(run_step(RunStage::Evaluated, facts(true, true, false, true)), RunStep::RunEventLoop);
    assert_eq!(run_step(RunStage::Evaluated, facts(false, false, false, true)), RunStep::Finish { ok: false, raise_terminated: true });
    let waiting = RunFacts { ok: true, termination_requested: true, settled: false, has_inspector: true, is_user_worker: true };
    assert_eq!(run_step(RunStage::Loaded, waiting), RunStep::Finish { ok: true, raise_terminated: true });
}

#[test]
fn cpu_time_is_reported_in_whole_milliseconds() {
    assert_eq!(cpu_time_ms(2_999_999), 2);
    assert_eq!(cpu_time_ms(-1_500_000), -1);
}

use edge_runtime_core::runtime::{
    event_loop_turn, poll_event_loop_now, resource_actions, BeforeunloadThresholds, LoopPoll, LoopTurn,
};

#[test]
fn beforeunload_thresholds_fire_once() {
    let mut t = BeforeunloadThresholds { cpu_ms: Some(90), memory_bytes: Some(1000) };
    let a = resource_actions(&mut t, 89_999_999, 999, Some(2000), false, false);
    assert!(!a.beforeunload_cpu && !a.beforeunload_memory);
    assert_eq!(a.mem_reached_half, Some(false));
    let a = resource_actions(&mut t, 90_000_000, 1000, Some(2000), false, false);
    assert!(a.beforeunload_cpu && a.beforeunload_memory);
    assert_eq!(a.mem_reached_half, Some(true));
    assert_eq!(t, BeforeunloadThresholds { cpu_ms: None, memory_bytes: None });
    let a = resource_actions(&mut t, 200_000_000, 5000, None, false, false);
    assert!(!a.beforeunload_cpu && !a.beforeunload_memory);
    assert_eq!(a.mem_reached_half, None);
}

#[test]
fn terminated_workers_get_no_beforeunload() {
    let mut t = BeforeunloadThresholds { cpu_ms: Some(1), memory_bytes: Some(1) };
    let a = resource_actions(&mut t, 5_000_000, 10, None, true, false);
    assert!(!a.beforeunload_cpu && !a.beforeunload_memory);
    assert_eq!(t, BeforeunloadThresholds { cpu_ms: None, memory_bytes: None });
    let mut t = BeforeunloadThresholds { cpu_ms: None, memory_bytes: Some(1) };
    assert!(!resource_actions(&mut t, 0, 10, None, false, true).beforeunload_memory);
}

#[test]
fn event_loop_turns() {
    assert!(poll_event_loop_now(false, false));
    assert!(!poll_event_loop_now(true, false));
    assert!(poll_event_loop_now(true, true));
    assert_eq!(event_loop_turn(LoopPoll::Pending, true, true, false), LoopTurn::Terminated);
    assert_eq!(event_loop_turn(LoopPoll::Pending, true, false, false), LoopTurn::Done);
    assert_eq!(event_loop_turn(LoopPoll::NotPolled, true, false, false), LoopTurn::Pending);
    assert_eq!(event_loop_turn(LoopPoll::Done, false, false, true), LoopTurn::Pending);
    assert_eq!(event_loop_turn(LoopPoll::Done, true, false, true), LoopTurn::Done);
    assert_eq!(event_loop_turn(LoopPoll::Failed, false, false, false), LoopTurn::Failed);
}

use edge_runtime_core::runtime::heap_limits;

#[test]
fn heap_limits_by_kind() {
    assert_eq!(heap_limits(true, 150, 0, 0), Some((0, 150 * 1_048_576)));
    assert_eq!(heap_limits(false, 150, 16, 256), Some((16 * 1_048_576, 256 * 1_048_576)));
    assert_eq!(heap_limits(false, 150, 16, 0), None);
}

use edge_runtime_core::runtime::{get_module_type, MediaType, ModuleType, UnsupportedMediaType};

#[test]
fn module_types() {
    assert_eq!(get_module_type(MediaType::Tsx), Ok(ModuleType::JavaScript));
    assert_eq!(get_module_type(MediaType::Dmts), Ok(ModuleType::JavaScript));
    assert_eq!(get_module_type(MediaType::Json), Ok(ModuleType::Json));
    assert_eq!(get_module_type(MediaType::Wasm), Err(UnsupportedMediaType { media_type: MediaType::Wasm }));
}

use edge_runtime_core::runtime::{MaskFutureAsSend, MaskValueAsSend};

#[test]
fn masked_values_are_handed_back() {
    let m: MaskFutureAsSend<u8> = MaskFutureAsSend::from(5u8);
    assert_eq!(m.fut.into_inner(), 5);
    assert_eq!(MaskValueAsSend { value: "x" }.into_inner(), "x");
}

use edge_runtime_core::runtime::{near_heap_limit, shutdown_event, IsolateMemoryStats, WorkerMemoryUsed};
use edge_runtime_core::supervisor::{Finish, ShutdownReason};

#[test]
fn low_memory_allowance_and_shutdown_report() {
    assert_eq!(near_heap_limit(64 * 1_048_576, 5), 320 * 1_048_576);
    let e = shutdown_event(
        Finish { reason: ShutdownReason::Memory, cpu_time_ms: 42 },
        Some(IsolateMemoryStats { used_heap_size: 10, external_memory: 6 }),
    );
    assert_eq!(e.reason, ShutdownReason::Memory);
    assert_eq!(e.cpu_time_used, 42);
    assert_eq!(e.memory_used, WorkerMemoryUsed { total: 16, heap: 10, external: 6 });
    let none = shutdown_event(Finish { reason: ShutdownReason::EarlyDrop, cpu_time_ms: 0 }, None);
    assert_eq!(none.memory_used, WorkerMemoryUsed { total: 0, heap: 0, external: 0 });
}
