//! Mutations and shutdown: routes, reservations, answers, and what the host is
//! told in the end.
use qcg_server::environment::Variable;
use qcg_server::error::{ApiError, ApiHttpError};
use qcg_server::etag::body_etag;
use qcg_server::mutation::{
    action_body, cancel_run_from_path, check_target_reservation, created_run_response,
    dispatch_fallback, respond_with_snapshot, take_reservation,
};
use qcg_server::policy::{
    resolve_server_policy, Bounds, Environment, PolicyDefaults, ResolvedServerPolicy, RunStoreMode,
    ServerConfig,
};
use qcg_server::serve::{
    advance, order, serve_with_listener, serve_with_resolved_policy, Order, Report, Stage,
};
use qcg_server::shutdown::{
    after_drain, generator_roots, reject_mutating_requests_during_shutdown, serve_outcome,
    settle_resident_tasks, settlement, Settlement, TaskEnd,
};

#[test]
fn cancellation_is_read_from_the_path() {
    assert_eq!(cancel_run_from_path("run-1:cancel").expect("a cancellation"), "run-1");
    assert_eq!(cancel_run_from_path("a:cancel:cancel").expect("a cancellation"), "a:cancel");
    for bad in [":cancel", "run-1", "run-1:stop", ""] {
        let refusal = cancel_run_from_path(bad).expect_err("no such route");
        assert_eq!(refusal.problem.status, 404);
        assert_eq!(refusal.problem.detail, format!("route `POST /api/runs/{bad}` was not found"));
        assert_eq!(refusal.problem.instance, format!("/api/runs/{bad}"));
    }
    let refusal = dispatch_fallback("GET", "/nope");
    assert_eq!(refusal.problem.detail, "route `GET /nope` was not found");
    assert_eq!((refusal.problem.status, refusal.problem.code.as_str()), (404, "not_found"));
}

#[test]
fn actions_execute_under_their_own_reservation_only() {
    assert!(check_target_reservation(&Some("r".to_string()), "r").is_ok());
    for reserved in [None, Some("other".to_string())] {
        match check_target_reservation(&reserved, "r").expect_err("foreign") {
            ApiError::Internal { detail } => {
                assert_eq!(detail, "idempotency reservation does not match the target run")
            }
            other => panic!("expected an internal refusal, got {other:?}"),
        }
    }
    assert_eq!(take_reservation(Some("r".to_string())).expect("reserved"), "r");
    match take_reservation(None).expect_err("missing") {
        ApiError::Internal { detail } => {
            assert_eq!(detail, "idempotency reservation is missing; commit refused")
        }
        other => panic!("expected an internal refusal, got {other:?}"),
    }
}

#[test]
fn action_contents_keep_question_and_payload_apart() {
    assert_eq!(action_body("q", &b"{}".to_vec()), b"q\0{}".to_vec());
    assert_ne!(action_body("qa", &b"b".to_vec()), action_body("q", &b"ab".to_vec()));
}

#[test]
fn idempotent_replay_returns_the_identical_etag() {
    let snapshot = b"{\"run_id\":\"r\"}".to_vec();
    let created = created_run_response("r", snapshot.clone());
    assert_eq!(created.head.status, 201);
    assert_eq!(created.head.headers[1], ("etag", body_etag(&snapshot)));
    assert_eq!(created.head.headers[3], ("location", "/api/runs/r".to_string()));
    let replay = respond_with_snapshot("r", snapshot.clone(), true);
    assert_eq!(replay.head.headers, created.head.headers);
    let answered = respond_with_snapshot("r", snapshot.clone(), false);
    assert_eq!(answered.head.status, 200);
    assert_eq!(answered.head.headers.len(), 3);
    assert_eq!(answered.body, snapshot);
}

#[test]
fn refusals_of_the_service_keep_their_status() {
    let status = |error: ApiError| ApiHttpError::from_api(error).problem.status;
    let d = || "d".to_string();
    assert_eq!(status(ApiError::NotFound { detail: d() }), 404);
    assert_eq!(status(ApiError::Invalid { field: None, reason: d() }), 400);
    assert_eq!(status(ApiError::TooLarge { limit_bytes: 1, actual_bytes: 2 }), 413);
    assert_eq!(status(ApiError::Conflict { detail: d() }), 409);
    assert_eq!(status(ApiError::Unsupported { detail: d() }), 422);
    assert_eq!(status(ApiError::Unavailable { detail: d() }), 503);
    assert_eq!(status(ApiError::Internal { detail: d() }), 500);
    let invalid = ApiHttpError::from_api(ApiError::Invalid {
        field: Some("inputs.name".to_string()),
        reason: "required".to_string(),
    });
    assert_eq!((invalid.problem.status, invalid.problem.code.as_str()), (422, "validation_failed"));
    assert_eq!(invalid.problem.errors[0].field, "inputs.name");
    assert_eq!(invalid.problem.errors[0].reason, "required");
}

#[test]
fn shutdown_rejects_mutating_requests_only() {
    assert!(reject_mutating_requests_during_shutdown(true, "GET").is_ok());
    assert!(reject_mutating_requests_during_shutdown(false, "POST").is_ok());
    let refusal = reject_mutating_requests_during_shutdown(true, "DELETE").expect_err("drains");
    assert_eq!((refusal.problem.status, refusal.problem.detail.as_str()), (503, "server is shutting down"));
}

#[test]
fn resident_task_panic_fails_shutdown() {
    let ends = vec![TaskEnd::Stopped, TaskEnd::JoinFailed("task 3 panicked".to_string())];
    assert_eq!(
        settle_resident_tasks(&ends),
        Err("resident task failed during shutdown: task 3 panicked".to_string())
    );
    assert_eq!(settle_resident_tasks(&vec![TaskEnd::Stopped, TaskEnd::Stopped]), Ok(()));
    assert_eq!(settle_resident_tasks(&Vec::new()), Ok(()));
}

#[test]
fn every_task_failure_is_reported() {
    let ends = vec![
        TaskEnd::GraceExceeded,
        TaskEnd::Stopped,
        TaskEnd::TaskFailed("gc".to_string()),
        TaskEnd::WaiterFailed("w".to_string()),
    ];
    assert_eq!(
        settle_resident_tasks(&ends),
        Err("3 resident tasks failed during shutdown: resident task exceeded the shutdown grace period; resident task ended with an error: gc; resident task waiter failed during shutdown: w".to_string())
    );
}

#[test]
fn both_failures_reach_the_host() {
    let failed = || Settlement::Failed("runs stuck".to_string());
    let serving = || Some("accept failed".to_string());
    assert_eq!(serve_outcome(None, Settlement::Settled, 5), Ok(()));
    assert_eq!(serve_outcome(serving(), Settlement::Settled, 5), Err("accept failed".to_string()));
    assert_eq!(serve_outcome(None, failed(), 5), Err("runs stuck".to_string()));
    assert_eq!(
        serve_outcome(serving(), failed(), 5),
        Err("server failed: accept failed; shutdown also failed: runs stuck".to_string())
    );
    assert_eq!(
        serve_outcome(None, Settlement::DeadlinePassed, 5),
        Err("graceful shutdown exceeded its 5s deadline".to_string())
    );
    assert_eq!(
        serve_outcome(serving(), Settlement::DeadlinePassed, 5),
        Err("server failed: accept failed; graceful shutdown exceeded its 5s deadline".to_string())
    );
}

#[test]
fn settlement_reports_tasks_before_runs() {
    let no = |s: &str| Err::<(), String>(s.to_string());
    assert!(matches!(settlement(Ok(()), Ok(())), Settlement::Settled));
    assert!(matches!(settlement(no("t"), no("r")), Settlement::Failed(d) if d == "t"));
    assert!(matches!(settlement(Ok(()), no("r")), Settlement::Failed(d) if d == "r"));
    assert_eq!(after_drain(None), None, "a drain that was cut off is no failure");
    assert_eq!(after_drain(Some(Ok(()))), None);
    assert_eq!(after_drain(Some(Err("io".to_string()))), Some("io".to_string()));
}

#[test]
fn generator_roots_are_searched_in_order() {
    let extra = vec!["/b".to_string(), "/c".to_string()];
    assert_eq!(generator_roots(&"/a".to_string(), &extra), vec!["/a", "/b", "/c"]);
}

fn boot_policy() -> ResolvedServerPolicy {
    let wide = |default: u64| Bounds { default, min: 1, max: 1_000_000 };
    let defaults = PolicyDefaults {
        idempotency_ttl_secs: 60,
        idempotency_max_entries: 10,
        live_event_channel_capacity: wide(512),
        journal_poll_interval_millis: wide(100),
        max_directory_scan_entries: wide(1000),
        store_rescan_min_secs: 1,
        store_rescan_max_secs: 60,
        shutdown_phase_min_secs: 1,
        shutdown_phase_max_secs: 600,
        gc_keep: 1,
        gc_keep_failed: 1,
        gc_interval_secs: 60,
    };
    let env = Environment {
        idempotency_ttl_secs: Variable::Unset,
        idempotency_max_entries: Variable::Unset,
        auto_gc: Ok(true),
        preemption: Ok(true),
        rate_limit_rps: Variable::Unset,
        rate_limit_burst: Variable::Unset,
        rate_limit_identity_header: Variable::Unset,
        otlp_endpoint: Variable::Unset,
        otlp_interval_ms: Variable::Unset,
        live_event_channel_capacity: Variable::Unset,
        journal_poll_interval_ms: Variable::Unset,
        max_directory_scan_entries: Variable::Unset,
        shared_rescan_secs: Variable::Unset,
        queued_resumer_secs: Variable::Unset,
        shutdown_drain_secs: Variable::Unset,
        shutdown_settle_secs: Variable::Unset,
        max_parallel_steps: Variable::Unset,
        gc_keep: Variable::Unset,
        gc_keep_failed: Variable::Unset,
        gc_interval_secs: Variable::Unset,
        audit_floor: Variable::Unset,
    };
    let config = ServerConfig {
        generators_dir: "generators".to_string(),
        providers_path: None,
        extra_generators_dirs: Vec::new(),
        runs_dir: "runs".to_string(),
        max_active_runs: 1,
        max_tracked_runs: 1,
        run_store_mode: RunStoreMode::Exclusive,
        cors_origins: Vec::new(),
        api_token: None,
        max_request_bytes: None,
        max_artifact_bytes: None,
        max_artifact_entries: None,
        max_asset_bytes: None,
        max_total_steps: None,
    };
    resolve_server_policy(&config, &env, &defaults, false).expect("policy should resolve clean")
}

fn failure(stage: &Stage) -> &str {
    match stage {
        Stage::Done(Err(failure)) => failure.as_str(),
        other => panic!("the server should have ended with a failure, got {other:?}"),
    }
}

#[test]
fn a_server_boots_serves_and_settles_in_order() {
    let policy = boot_policy();
    let mut stage = serve_with_resolved_policy();
    assert!(matches!(order(&stage, &policy), Order::Construct));
    stage = advance(stage, Report::Constructed(Ok(())), &policy);
    assert!(matches!(order(&stage, &policy), Order::BuildRouter));
    stage = advance(stage, Report::Routed(Ok(())), &policy);
    assert!(matches!(order(&stage, &policy), Order::InstallSignals));
    stage = advance(stage, Report::Resumed, &policy);
    assert!(matches!(order(&stage, &policy), Order::InstallSignals), "recovery cannot jump ahead");
    stage = advance(stage, Report::SignalsInstalled(Ok(())), &policy);
    assert!(matches!(order(&stage, &policy), Order::ResumeRecoveredRuns));
    stage = advance(stage, Report::Resumed, &policy);
    assert!(matches!(
        order(&stage, &policy),
        Order::StartTasks { auto_gc: true, exporter: false }
    ));
    stage = advance(stage, Report::Started, &policy);
    assert!(matches!(order(&stage, &policy), Order::Serve { drain_secs: 30 }));
    stage = advance(stage, Report::Served(Some(Err("accept failed".to_string()))), &policy);
    assert!(matches!(order(&stage, &policy), Order::Settle { deadline_secs: 150 }));
    stage = advance(stage, Report::Settled(Settlement::DeadlinePassed), &policy);
    assert_eq!(
        failure(&stage),
        "server failed: accept failed; graceful shutdown exceeded its 150s deadline"
    );
    assert!(matches!(order(&stage, &policy), Order::Return(Err(_))));
}

#[test]
fn a_refused_boot_starts_zero_recovery() {
    let policy = boot_policy();
    let refused = |detail: &str| Err::<(), String>(detail.to_string());
    let stage = advance(serve_with_resolved_policy(), Report::Constructed(refused("lock held")), &policy);
    assert_eq!(failure(&stage), "lock held");
    let stage = advance(stage, Report::Constructed(Ok(())), &policy);
    assert_eq!(failure(&stage), "lock held", "a refusal is final");
    let routing = || advance(serve_with_resolved_policy(), Report::Constructed(Ok(())), &policy);
    let stage = advance(routing(), Report::Routed(refused("bad router")), &policy);
    assert_eq!(failure(&stage), "bad router");
    let installing = advance(routing(), Report::Routed(Ok(())), &policy);
    let stage = advance(installing, Report::SignalsInstalled(refused("no signals")), &policy);
    assert_eq!(failure(&stage), "failed to install SIGTERM handler: no signals");
}

#[test]
fn an_unresolved_policy_refuses_the_boot() {
    let stage = serve_with_listener(&Err("invalid GC configuration: x".to_string()));
    assert_eq!(failure(&stage), "invalid server configuration: invalid GC configuration: x");
    assert!(matches!(serve_with_listener(&Ok(boot_policy())), Stage::Constructing));
    assert_eq!(boot_policy(), boot_policy(), "a frozen policy equals a fresh resolve");
}
