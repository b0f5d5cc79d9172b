//! Deployment policy: what boots, what is refused and with which words.
use qcg_server::environment::Variable;
use qcg_server::idempotency::config::{
    clock_reading, effective_idempotency_max_entries, effective_idempotency_ttl, now_unix,
};
use qcg_server::policy::{
    check_config, effective_max_total_steps, parse_bounded_env, parse_positive_env,
    reject_zero_explicit_max, resolve_audit_floor, resolve_server_policy, AuditFloor, Bounds,
    Environment, PolicyDefaults, ResolvedServerPolicy, RunStoreMode, ServerConfig,
    DRAIN_TIMEOUT_SECS, SHUTDOWN_DEADLINE_SECS, TOTAL_SHUTDOWN_BOUND_SECS,
};

fn boot_config() -> ServerConfig {
    ServerConfig {
        generators_dir: "/srv/generators".to_string(),
        providers_path: None,
        extra_generators_dirs: Vec::new(),
        runs_dir: "/srv/runs".to_string(),
        max_active_runs: 1,
        max_tracked_runs: 4096,
        run_store_mode: RunStoreMode::Exclusive,
        cors_origins: Vec::new(),
        api_token: None,
        max_request_bytes: None,
        max_artifact_bytes: None,
        max_artifact_entries: None,
        max_asset_bytes: None,
        max_total_steps: None,
    }
}

fn quiet() -> Environment {
    Environment {
        idempotency_ttl_secs: Variable::Unset,
        idempotency_max_entries: Variable::Unset,
        auto_gc: Ok(true),
        preemption: Ok(true),
        rate_limit_rps: Variable::Unset,
        rate_limit_burst: Variable::Unset,
        rate_limit_identity_header: Variable::Unset,
        otlp_endpoint: Variable::Unset,
        otlp_interval_ms: Variable::Unset,
        live_event_channel_capacity: Variable::Unset,
        journal_poll_interval_ms: Variable::Unset,
        max_directory_scan_entries: Variable::Unset,
        shared_rescan_secs: Variable::Unset,
        queued_resumer_secs: Variable::Unset,
        shutdown_drain_secs: Variable::Unset,
        shutdown_settle_secs: Variable::Unset,
        max_parallel_steps: Variable::Unset,
        gc_keep: Variable::Unset,
        gc_keep_failed: Variable::Unset,
        gc_interval_secs: Variable::Unset,
        audit_floor: Variable::Unset,
    }
}

fn defaults() -> PolicyDefaults {
    PolicyDefaults {
        idempotency_ttl_secs: 86_400,
        idempotency_max_entries: 4096,
        live_event_channel_capacity: Bounds { default: 512, min: 16, max: 65_536 },
        journal_poll_interval_millis: Bounds { default: 250, min: 10, max: 5_000 },
        max_directory_scan_entries: Bounds { default: 10_000, min: 100, max: 1_000_000 },
        store_rescan_min_secs: 1,
        store_rescan_max_secs: 3_600,
        shutdown_phase_min_secs: 1,
        shutdown_phase_max_secs: 600,
        gc_keep: 100,
        gc_keep_failed: 50,
        gc_interval_secs: 3_600,
    }
}

fn resolve(config: &ServerConfig, env: &Environment) -> Result<ResolvedServerPolicy, String> {
    resolve_server_policy(config, env, &defaults(), true)
}

fn some(value: &str) -> Variable {
    Variable::Text(value.to_string())
}

#[test]
fn max_total_steps_flag_rejects_zero() {
    assert_eq!(
        effective_max_total_steps(Some(0)),
        Err("QCG_MAX_TOTAL_STEPS must be greater than zero".into())
    );
    assert_eq!(effective_max_total_steps(None), Ok(None));
    assert_eq!(effective_max_total_steps(Some(50)), Ok(Some(50)));
}

#[test]
fn shutdown_drain_timeout_is_documented_and_bounded() {
    assert_eq!(DRAIN_TIMEOUT_SECS, 30);
    assert_eq!(SHUTDOWN_DEADLINE_SECS, 150, "outer deadline must stay 150 s after the drain");
    assert_eq!(
        TOTAL_SHUTDOWN_BOUND_SECS,
        DRAIN_TIMEOUT_SECS + SHUTDOWN_DEADLINE_SECS,
        "total bound must stay drain + outer = 180 s"
    );
    assert_eq!(TOTAL_SHUTDOWN_BOUND_SECS, 180);
}

#[test]
fn serve_construction_uses_only_the_policy_constructor() {
    // Every knob of the resolved policy that concerns the service reaches it
    // in the one value that it is constructed with.
    let mut config = boot_config();
    config.max_total_steps = Some(7);
    let mut env = quiet();
    env.preemption = Ok(false);
    env.audit_floor = some("STANDARD");
    env.gc_keep = some("3");
    env.gc_keep_failed = some("4");
    env.gc_interval_secs = some("61");
    env.max_parallel_steps = some("5");
    env.live_event_channel_capacity = some("17");
    env.journal_poll_interval_ms = some("11");
    env.max_directory_scan_entries = some("101");
    env.shared_rescan_secs = some("6");
    env.queued_resumer_secs = some("8");
    let service = resolve(&config, &env).expect("policy should resolve").service_policy();
    assert_eq!(service.max_total_steps, Some(7));
    assert!(!service.preemption_enabled);
    assert_eq!(service.audit_floor, AuditFloor::Standard);
    assert_eq!(service.gc_keep, 3);
    assert_eq!(service.gc_keep_failed, 4);
    assert_eq!(service.gc_interval_secs, 61);
    assert_eq!(service.max_parallel_steps, Some(5));
    assert_eq!(service.live_event_channel_capacity, 17);
    assert_eq!(service.journal_poll_interval_millis, 11);
    assert_eq!(service.max_directory_scan_entries, 101);
    assert_eq!(service.shared_store_rescan_secs, 6);
    assert_eq!(service.queued_resumer_secs, 8);
}

#[test]
fn serve_refuses_zero_active_and_zero_step_limits() {
    assert!(effective_max_total_steps(Some(0)).is_err());
    let mut config = boot_config();
    config.max_active_runs = 0;
    config.max_tracked_runs = 10;
    let error = resolve(&config, &quiet()).expect_err("max_active_runs = 0 must refuse boot");
    assert!(error.contains("greater than zero"), "{error}");
    let mut bad = boot_config();
    bad.max_active_runs = 4;
    bad.max_tracked_runs = 2;
    assert!(
        resolve(&bad, &quiet()).is_err(),
        "max_tracked_runs < max_active_runs must refuse boot"
    );
}

#[test]
fn invalid_idempotency_policy_names_its_variable() {
    for (variable, value) in [
        ("QCG_IDEMPOTENCY_TTL_SECS", "0"),
        ("QCG_IDEMPOTENCY_TTL_SECS", "soon"),
        ("QCG_IDEMPOTENCY_MAX_ENTRIES", "0"),
        ("QCG_IDEMPOTENCY_MAX_ENTRIES", "many"),
    ] {
        let error: String = if variable == "QCG_IDEMPOTENCY_TTL_SECS" {
            effective_idempotency_ttl(&some(value), 86_400).map(|_| ()).expect_err("invalid ttl must fail")
        } else {
            effective_idempotency_max_entries(&some(value), 4096)
                .map(drop)
                .expect_err("invalid max entries must fail")
        };
        assert!(error.contains(variable), "policy errors must name {variable}");
    }
    assert!(effective_idempotency_ttl(&Variable::Unset, 86_400).is_ok());
    assert!(effective_idempotency_max_entries(&Variable::Unset, 4096).is_ok());
}

#[test]
fn a_set_lifetime_is_never_replaced_by_the_default() {
    assert_eq!(effective_idempotency_ttl(&Variable::Unset, 86_400), Ok(86_400));
    assert_eq!(effective_idempotency_ttl(&some("1"), 86_400), Ok(1));
    assert_eq!(
        effective_idempotency_ttl(&some("18446744073709551615"), 86_400),
        Ok(u64::MAX)
    );
    for value in ["0", "soon", "", "-1", " 5", "1.5", "18446744073709551616"] {
        assert_eq!(
            effective_idempotency_ttl(&some(value), 86_400),
            Err(format!("invalid QCG_IDEMPOTENCY_TTL_SECS `{value}`: must be a positive integer"))
        );
    }
    assert_eq!(
        effective_idempotency_ttl(&Variable::NotText, 86_400),
        Err("invalid QCG_IDEMPOTENCY_TTL_SECS: must be UTF-8 text".to_string())
    );
    assert_eq!(
        effective_idempotency_max_entries(&Variable::NotText, 4096),
        Err("invalid QCG_IDEMPOTENCY_MAX_ENTRIES: must be UTF-8 text".to_string())
    );
}

#[test]
fn every_variable_that_is_not_text_refuses_boot_by_name() {
    let refused = |named: &str, spoil: fn(&mut Environment)| {
        let mut env = quiet();
        spoil(&mut env);
        let error = resolve(&boot_config(), &env).expect_err("must refuse boot");
        assert!(error.ends_with(&format!("invalid {named}: must be UTF-8 text")), "{error}");
    };
    refused("QCG_IDEMPOTENCY_TTL_SECS", |env| env.idempotency_ttl_secs = Variable::NotText);
    refused("QCG_IDEMPOTENCY_MAX_ENTRIES", |env| env.idempotency_max_entries = Variable::NotText);
    refused("QCG_RATE_LIMIT_RPS", |env| env.rate_limit_rps = Variable::NotText);
    refused("QCG_RATE_LIMIT_BURST", |env| {
        env.rate_limit_rps = some("1");
        env.rate_limit_burst = Variable::NotText;
    });
    refused("QCG_RATE_LIMIT_IDENTITY_HEADER", |env| {
        env.rate_limit_rps = some("1");
        env.rate_limit_identity_header = Variable::NotText;
    });
    refused("QCG_OTLP_ENDPOINT", |env| env.otlp_endpoint = Variable::NotText);
    refused("QCG_OTLP_INTERVAL_MS", |env| {
        env.otlp_endpoint = some("http://collector");
        env.otlp_interval_ms = Variable::NotText;
    });
    refused("QCG_LIVE_EVENT_CHANNEL_CAPACITY", |env| {
        env.live_event_channel_capacity = Variable::NotText
    });
    refused("QCG_JOURNAL_POLL_INTERVAL_MS", |env| env.journal_poll_interval_ms = Variable::NotText);
    refused("QCG_MAX_DIRECTORY_SCAN_ENTRIES", |env| {
        env.max_directory_scan_entries = Variable::NotText
    });
    refused("QCG_SHARED_RESCAN_SECS", |env| env.shared_rescan_secs = Variable::NotText);
    refused("QCG_QUEUED_RESUMER_SECS", |env| env.queued_resumer_secs = Variable::NotText);
    refused("QCG_SHUTDOWN_DRAIN_SECS", |env| env.shutdown_drain_secs = Variable::NotText);
    refused("QCG_SHUTDOWN_SETTLE_SECS", |env| env.shutdown_settle_secs = Variable::NotText);
    refused("QCG_MAX_PARALLEL_STEPS", |env| env.max_parallel_steps = Variable::NotText);
    refused("QCG_GC_KEEP", |env| env.gc_keep = Variable::NotText);
    refused("QCG_GC_KEEP_FAILED", |env| env.gc_keep_failed = Variable::NotText);
    refused("QCG_GC_INTERVAL_SECS", |env| env.gc_interval_secs = Variable::NotText);
    refused("QCG_AUDIT_FLOOR", |env| env.audit_floor = Variable::NotText);
    let mut lone = quiet();
    lone.rate_limit_burst = Variable::NotText;
    let error = resolve(&boot_config(), &lone).expect_err("a lone burst is incomplete");
    assert!(error.contains("set without QCG_RATE_LIMIT_RPS"), "{error}");
}

#[test]
fn policy_resolution_is_deterministic_under_frozen_env() {
    let config = boot_config();
    let env = quiet();
    let first = resolve(&config, &env).expect("policy should resolve");
    let second = resolve(&config, &env).expect("policy should resolve again");
    assert_eq!(first.idempotency_ttl_secs, second.idempotency_ttl_secs);
    assert_eq!(first.idempotency_max_entries, second.idempotency_max_entries);
    assert_eq!(first.max_total_steps, second.max_total_steps);
    assert_eq!(first.validated_cors, second.validated_cors);
    assert_eq!(first.auto_gc, second.auto_gc);
    assert_eq!(first.preemption_enabled, second.preemption_enabled);
    assert!(first.rate_limit.is_none() && second.rate_limit.is_none());
}

#[test]
fn rate_limit_env_knobs_are_resolved_strictly() {
    let config = boot_config();
    assert!(
        resolve(&config, &quiet()).expect("unset rate limit should resolve").rate_limit.is_none(),
        "an unset rps must leave the server unthrottled"
    );
    for (rps, burst, part) in [
        (Some("0"), None, "QCG_RATE_LIMIT_RPS"),
        (Some("fast"), None, "QCG_RATE_LIMIT_RPS"),
        (Some(""), None, "QCG_RATE_LIMIT_RPS"),
        (Some("-1"), None, "QCG_RATE_LIMIT_RPS"),
        (Some("1.5"), None, "QCG_RATE_LIMIT_RPS"),
        (Some("10"), Some("0"), "QCG_RATE_LIMIT_BURST"),
        (Some("10"), Some("many"), "QCG_RATE_LIMIT_BURST"),
        (Some("10"), Some(""), "QCG_RATE_LIMIT_BURST"),
        (None, Some("5"), "QCG_RATE_LIMIT_RPS"),
    ] {
        let mut env = quiet();
        env.rate_limit_rps = rps.map_or(Variable::Unset, some);
        env.rate_limit_burst = burst.map_or(Variable::Unset, some);
        let error = resolve(&config, &env).expect_err("invalid rate limit env must refuse boot");
        assert!(
            error.contains("rate limit") && error.contains(part),
            "refusal must name {part}: {error}"
        );
    }
    let mut env = quiet();
    env.rate_limit_rps = some("10");
    let limit = resolve(&config, &env)
        .expect("a positive rps should resolve")
        .rate_limit
        .expect("a limit");
    assert_eq!((limit.rps, limit.burst), (10, 10), "an unset burst must default to the rps value");
    env.rate_limit_burst = some("25");
    let limit = resolve(&config, &env)
        .expect("a positive burst should resolve")
        .rate_limit
        .expect("a limit");
    assert_eq!((limit.rps, limit.burst), (10, 25));
}

#[test]
fn bounded_policy_envs_refuse_out_of_range_values() {
    let config = boot_config();
    let policy = resolve(&config, &quiet()).expect("defaults should resolve");
    assert_eq!(policy.live_event_channel_capacity, 512);
    assert_eq!(policy.journal_poll_interval_millis, 250);
    assert_eq!(policy.shutdown_drain_secs, 30);
    assert_eq!(policy.shutdown_settle_secs, 150);

    let mut env = quiet();
    env.live_event_channel_capacity = some("1");
    let error = resolve(&config, &env).expect_err("below-minimum capacity must refuse");
    assert!(error.contains("QCG_LIVE_EVENT_CHANNEL_CAPACITY"), "{error}");
    let mut env = quiet();
    env.journal_poll_interval_ms = some("5001");
    let error = resolve(&config, &env).expect_err("above-maximum cadence must refuse");
    assert!(error.contains("QCG_JOURNAL_POLL_INTERVAL_MS"), "{error}");

    let mut env = quiet();
    env.shutdown_drain_secs = some("60");
    env.shutdown_settle_secs = some("30");
    let error = resolve(&config, &env).expect_err("settle < drain must refuse");
    assert!(error.contains("QCG_SHUTDOWN_SETTLE_SECS"), "{error}");
    env.shutdown_settle_secs = some("120");
    let policy = resolve(&config, &env).expect("valid shutdown phases should resolve");
    assert_eq!(policy.shutdown_drain_secs, 60);
    assert_eq!(policy.shutdown_settle_secs, 120);
}

#[test]
fn every_server_config_knob_has_an_explicit_fail_closed_bound() {
    resolve(&boot_config(), &quiet()).expect("baseline config should resolve");
    let refused = |change: &dyn Fn(&mut ServerConfig), name: &str| {
        let mut bad = boot_config();
        change(&mut bad);
        let error = resolve(&bad, &quiet()).expect_err("the knob must refuse boot");
        assert!(error.contains(name), "refusal must name {name}: {error}");
    };
    refused(&|c| c.max_request_bytes = Some(0), "max_request_bytes");
    refused(&|c| c.max_artifact_bytes = Some(0), "max_artifact_bytes");
    refused(&|c| c.max_artifact_entries = Some(0), "max_artifact_entries");
    refused(&|c| c.max_asset_bytes = Some(0), "max_asset_bytes");
    refused(&|c| c.max_total_steps = Some(0), "max_total_steps");
    refused(&|c| c.max_active_runs = 0, "max_active_runs");
    refused(&|c| c.max_tracked_runs = 0, "max_tracked_runs");
    refused(&|c| c.max_active_runs = 65_537, "max_active_runs");
    refused(
        &|c| {
            c.max_active_runs = 4;
            c.max_tracked_runs = 2;
        },
        "max_tracked_runs",
    );
    refused(&|c| c.max_tracked_runs = 1_000_001, "max_tracked_runs");
    refused(&|c| c.generators_dir = String::new(), "generators_dir");
    refused(&|c| c.runs_dir = String::new(), "runs_dir");
    refused(&|c| c.extra_generators_dirs = vec![String::new()], "extra_generators_dirs");
    refused(&|c| c.providers_path = Some(String::new()), "providers_path");
    refused(&|c| c.api_token = Some(String::new()), "api_token");
    let mut config = boot_config();
    config.max_request_bytes = Some(1024);
    config.max_artifact_bytes = Some(1024);
    config.max_artifact_entries = Some(10);
    config.max_asset_bytes = Some(1024);
    config.api_token = Some("secret".into());
    resolve(&config, &quiet()).expect("non-zero maxima should resolve");
}

#[test]
fn the_first_complaint_wins() {
    let mut config = boot_config();
    config.max_active_runs = 0;
    config.max_total_steps = Some(0);
    config.cors_origins = vec!["ftp://example.com".to_string()];
    let mut env = quiet();
    env.idempotency_ttl_secs = some("soon");
    env.idempotency_max_entries = some("0");
    env.auto_gc = Err("QCG_AUTO_GC must be true or false".to_string());
    env.preemption = Err("QCG_PREEMPTION must be true or false".to_string());
    env.otlp_interval_ms = some("1000");
    env.max_parallel_steps = some("0");
    env.gc_keep = some("0");
    env.gc_keep_failed = some("x");
    env.gc_interval_secs = some("59");
    env.audit_floor = some("loud");
    let expect = |config: &ServerConfig, env: &Environment, words: &str| {
        assert_eq!(resolve(config, env).expect_err("must refuse"), words);
    };
    expect(
        &config,
        &env,
        "invalid idempotency configuration: invalid QCG_IDEMPOTENCY_TTL_SECS `soon`: must be a positive integer",
    );
    env.idempotency_ttl_secs = Variable::Unset;
    expect(
        &config,
        &env,
        "invalid idempotency configuration: invalid QCG_IDEMPOTENCY_MAX_ENTRIES `0`: must be a positive integer",
    );
    env.idempotency_max_entries = Variable::Unset;
    expect(
        &config,
        &env,
        "invalid max_total_steps step budget configuration: QCG_MAX_TOTAL_STEPS must be greater than zero",
    );
    config.max_total_steps = None;
    expect(
        &config,
        &env,
        "invalid CORS configuration: invalid CORS origin `ftp://example.com`: must start with http:// or https://",
    );
    config.cors_origins = Vec::new();
    expect(&config, &env, "invalid GC configuration: QCG_AUTO_GC must be true or false");
    env.auto_gc = Ok(false);
    expect(&config, &env, "invalid preemption configuration: QCG_PREEMPTION must be true or false");
    env.preemption = Ok(false);
    expect(
        &config,
        &env,
        "QCG_OTLP_INTERVAL_MS is set without QCG_OTLP_ENDPOINT; set both or neither",
    );
    env.otlp_interval_ms = Variable::Unset;
    expect(&config, &env, "invalid QCG_MAX_PARALLEL_STEPS `0`: must be an integer of at least 1");
    env.max_parallel_steps = Variable::Unset;
    expect(&config, &env, "invalid QCG_GC_KEEP `0`: must be an integer of at least 1");
    env.gc_keep = Variable::Unset;
    expect(&config, &env, "invalid QCG_GC_KEEP_FAILED `x`: must be an integer of at least 1");
    env.gc_keep_failed = Variable::Unset;
    expect(&config, &env, "invalid QCG_GC_INTERVAL_SECS `59`: must be an integer of at least 60");
    env.gc_interval_secs = Variable::Unset;
    expect(&config, &env, "invalid QCG_AUDIT_FLOOR `loud`: must be `minimal` or `standard`");
    env.audit_floor = Variable::Unset;
    expect(&config, &env, "max_active_runs must be greater than zero");
    config.max_active_runs = 8;
    let policy = resolve(&config, &env).expect("now it boots");
    assert!(!policy.auto_gc && !policy.preemption_enabled);
    assert_eq!(policy.audit_floor, AuditFloor::Minimal);
    assert_eq!(policy.max_parallel_steps, None);
    assert_eq!((policy.gc_keep, policy.gc_keep_failed, policy.gc_interval_secs), (100, 50, 3_600));
    assert_eq!((policy.shared_store_rescan_secs, policy.queued_resumer_secs), (5, 5));
}

#[test]
fn bounded_values_are_checked_at_both_ends() {
    let parse = |value: &str| parse_bounded_env("QCG_X", &some(value), 5, 2, 9);
    assert_eq!(parse_bounded_env("QCG_X", &Variable::Unset, 5, 2, 9), Ok(5));
    assert_eq!(parse("2"), Ok(2));
    assert_eq!(parse("9"), Ok(9));
    assert_eq!(parse("+3"), Ok(3));
    for bad in ["1", "10", "", "+", " 3", "3 ", "0x3", "-3", "99999999999999999999"] {
        assert_eq!(
            parse(bad),
            Err(format!("invalid QCG_X `{bad}`: must be an integer between 2 and 9"))
        );
    }
    assert_eq!(parse_positive_env("QCG_Y", &some("1"), 7), Ok(1));
    assert_eq!(parse_positive_env("QCG_Y", &Variable::Unset, 7), Ok(7));
    assert_eq!(
        parse_positive_env("QCG_Y", &some("0"), 7),
        Err("invalid QCG_Y `0`: must be an integer of at least 1".to_string())
    );
}

#[test]
fn explicit_limits_and_paths_are_checked_one_by_one() {
    assert!(reject_zero_explicit_max(&boot_config()).is_ok());
    let mut config = boot_config();
    config.max_asset_bytes = Some(0);
    assert_eq!(
        reject_zero_explicit_max(&config),
        Err("max_asset_bytes must be greater than zero when set".to_string())
    );
    let mut config = boot_config();
    config.max_active_runs = 4;
    config.max_tracked_runs = 2;
    assert_eq!(
        check_config(&config),
        Err("max_tracked_runs must be at least max_active_runs (4)".to_string())
    );
    config.max_active_runs = 65_536;
    config.max_tracked_runs = 1_000_000;
    assert_eq!(check_config(&config), Ok(()));
}

#[test]
fn audit_floors_are_read_in_any_case() {
    assert_eq!(resolve_audit_floor(&Variable::Unset), Ok(AuditFloor::Minimal));
    assert_eq!(resolve_audit_floor(&some("Minimal")), Ok(AuditFloor::Minimal));
    assert_eq!(resolve_audit_floor(&some("sTaNdArD")), Ok(AuditFloor::Standard));
    assert!(resolve_audit_floor(&some("")).is_err());
}

#[test]
fn an_unreadable_clock_is_refused() {
    assert_eq!(clock_reading(Some(12)), Ok(12));
    assert_eq!(
        clock_reading(None),
        Err("system clock is before the Unix epoch; refusing idempotency decision".to_string())
    );
    assert!(now_unix().expect("the clock reads") > 1_600_000_000);
}
