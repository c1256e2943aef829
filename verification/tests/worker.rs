use edge_runtime_core::worker::{
    after_run, get_default_permisisons, relay_upgrade, termination_watch, upgrade_response_ok, worker_name_of,
    Permissions, TerminationWatch, WorkerKind, SWITCHING_PROTOCOLS,
};

#[test]
fn user_worker_names_carry_the_hyphenated_key() {
    let key: u128 = 0x67e5_5044_10b1_426f_9247_bb68_0e5f_e0c8;
    let expected = format!("sb-iso-{:?}", uuid::Uuid::from_u128(key));
    assert_eq!(worker_name_of(WorkerKind::UserWorker, Some(key)), expected);
    assert_eq!(expected, "sb-iso-67e55044-10b1-426f-9247-bb680e5fe0c8");
    assert_eq!(
        worker_name_of(WorkerKind::UserWorker, Some(0)),
        "sb-iso-00000000-0000-0000-0000-000000000000"
    );
    assert_eq!(worker_name_of(WorkerKind::UserWorker, None), "isolate-worker-unknown");
    assert_eq!(worker_name_of(WorkerKind::MainWorker, None), "main-worker");
    assert_eq!(worker_name_of(WorkerKind::EventsWorker, Some(1)), "events-worker");
}

#[test]
fn random_keys_format_like_the_uuid_crate() {
    for _ in 0..16 {
        let id = uuid::Uuid::new_v4();
        assert_eq!(worker_name_of(WorkerKind::UserWorker, Some(id.as_u128())), format!("sb-iso-{:?}", id));
    }
}

#[test]
fn who_watches_a_worker() {
    assert_eq!(termination_watch(WorkerKind::UserWorker, true), TerminationWatch::Supervisor);
    assert_eq!(termination_watch(WorkerKind::MainWorker, true), TerminationWatch::TokenWatcher);
    assert_eq!(termination_watch(WorkerKind::EventsWorker, false), TerminationWatch::Nothing);
    assert_eq!(after_run(WorkerKind::MainWorker, true, None, false), (true, None));
    assert_eq!(after_run(WorkerKind::UserWorker, true, Some(5), true), (false, Some(5)));
}

#[test]
fn upgrades_are_relayed_only_when_agreed() {
    let ws = "websocket".to_string();
    let h2 = "h2c".to_string();
    assert!(upgrade_response_ok(None, None));
    assert!(upgrade_response_ok(Some(&ws), Some(&ws)));
    assert!(!upgrade_response_ok(Some(&ws), Some(&h2)));
    assert!(!upgrade_response_ok(Some(&ws), None));
    assert!(relay_upgrade(&ws, Some(&ws), SWITCHING_PROTOCOLS));
    assert!(!relay_upgrade(&ws, Some(&ws), 200));
    assert!(!relay_upgrade(&ws, None, SWITCHING_PROTOCOLS));
}

#[test]
fn permissions_allow_everything() {
    let mut p = Permissions::new();
    assert!(p.check_env("HOME").is_ok());
    assert!(p.check_env_all().is_ok());
    assert!(p.check_read_blind("/tmp", "tmp", "Deno.readFile").is_ok());
    assert!(p.allow_hrtime());
}

#[test]
fn default_permissions_by_kind() {
    let user = get_default_permisisons(WorkerKind::UserWorker);
    assert!(!user.allow_all);
    assert!(user.allow_ffi.is_none());
    assert!(user.allow_run.is_none());
    assert_eq!(user.allow_sys, Some(vec!["hostname".to_string()]));
    assert_eq!(user.allow_net, Some(vec![]));
    let main = get_default_permisisons(WorkerKind::MainWorker);
    assert!(main.allow_all);
    assert_eq!(main.allow_run, Some(vec![]));
    assert_eq!(main.allow_sys, Some(vec![]));
}
