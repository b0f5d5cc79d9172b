//! Deployment policy: flags and environment are resolved once, at boot, into
//! values that every later decision uses. Whatever is invalid refuses the boot
//! with a message that names it.
use vstd::prelude::*;
use vstd::string::*;
use crate::cors;
use crate::environment;
use crate::environment::{Setting, Variable};
use crate::idempotency::config;
use crate::otlp;
use crate::otlp::OtlpConfig;
use crate::rate_limit;
use crate::rate_limit::RateLimitPolicy;
use crate::text;

verus! {

/// How a run store is shared.
#[derive(Debug, Clone, Copy, PartialEq, Eq, Structural)]
pub enum RunStoreMode {
    Exclusive,
    SharedFilesystem,
}

/// How much every run is audited at least.
#[derive(Debug, Clone, Copy, PartialEq, Eq, Structural)]
pub enum AuditFloor {
    Minimal,
    Standard,
}

/// The server's flags.
#[derive(Debug, Clone)]
pub struct ServerConfig {
    pub generators_dir: String,
    /// An explicit providers registry; when set, no other is looked for.
    pub providers_path: Option<String>,
    /// Further generator roots, searched after `generators_dir`.
    pub extra_generators_dirs: Vec<String>,
    pub runs_dir: String,
    pub max_active_runs: usize,
    pub max_tracked_runs: usize,
    pub run_store_mode: RunStoreMode,
    pub cors_origins: Vec<String>,
    /// The bearer token; without one the listener is unauthenticated.
    pub api_token: Option<String>,
    /// Explicit limits; omitted means no limit.
    pub max_request_bytes: Option<usize>,
    pub max_artifact_bytes: Option<u64>,
    pub max_artifact_entries: Option<usize>,
    pub max_asset_bytes: Option<usize>,
    pub max_total_steps: Option<usize>,
}

/// The deployment variables, as read at boot. The two switches come already
/// parsed.
#[derive(Debug)]
pub struct Environment {
    pub idempotency_ttl_secs: Variable,
    pub idempotency_max_entries: Variable,
    pub auto_gc: Result<bool, String>,
    pub preemption: Result<bool, String>,
    pub rate_limit_rps: Variable,
    pub rate_limit_burst: Variable,
    pub rate_limit_identity_header: Variable,
    pub otlp_endpoint: Variable,
    pub otlp_interval_ms: Variable,
    pub live_event_channel_capacity: Variable,
    pub journal_poll_interval_ms: Variable,
    pub max_directory_scan_entries: Variable,
    pub shared_rescan_secs: Variable,
    pub queued_resumer_secs: Variable,
    pub shutdown_drain_secs: Variable,
    pub shutdown_settle_secs: Variable,
    pub max_parallel_steps: Variable,
    pub gc_keep: Variable,
    pub gc_keep_failed: Variable,
    pub gc_interval_secs: Variable,
    pub audit_floor: Variable,
}

/// The default of a bounded knob and its bounds.
#[derive(Debug, Clone, Copy)]
pub struct Bounds {
    pub default: u64,
    pub min: u64,
    pub max: u64,
}

/// The compiled-in defaults and bounds of the host.
#[derive(Debug, Clone, Copy)]
pub struct PolicyDefaults {
    pub idempotency_ttl_secs: u64,
    pub idempotency_max_entries: usize,
    pub live_event_channel_capacity: Bounds,
    pub journal_poll_interval_millis: Bounds,
    pub max_directory_scan_entries: Bounds,
    pub store_rescan_min_secs: u64,
    pub store_rescan_max_secs: u64,
    pub shutdown_phase_min_secs: u64,
    pub shutdown_phase_max_secs: u64,
    pub gc_keep: usize,
    pub gc_keep_failed: usize,
    pub gc_interval_secs: u64,
}

/// The default seconds between two scans for abandoned or queued runs.
pub const RESCAN_SECS: u64 = 5;

/// The default bound on the HTTP drain after the shutdown signal, in seconds.
pub const DRAIN_TIMEOUT_SECS: u64 = 30;

/// The default bound on settlement after the drain, in seconds.
pub const SHUTDOWN_DEADLINE_SECS: u64 = 150;

/// The bound from the shutdown signal to the exit: drain and settlement.
pub const TOTAL_SHUTDOWN_BOUND_SECS: u64 = 180;

/// The most live runs.
pub const MAX_ACTIVE_RUNS: usize = 65_536;

/// The most runs that are kept in memory.
pub const MAX_TRACKED_RUNS: usize = 1_000_000;

/// The step ceiling of the flag; zero would block every run.
pub fn effective_max_total_steps(flag: Option<usize>) -> (r: Result<Option<usize>, String>)
    ensures
        match r {
            Ok(limit) => flag != Some(0usize) && limit == flag,
            Err(detail) => flag == Some(0usize) && detail@
                == "QCG_MAX_TOTAL_STEPS must be greater than zero"@,
        },
{
    match flag {
        Some(0) => Err("QCG_MAX_TOTAL_STEPS must be greater than zero".to_owned()),
        other => Ok(other),
    }
}

/// A knob that is unset takes its default; a value must spell an integer
/// within the bounds.
pub open spec fn bounded_knob(
    name: Seq<char>,
    value: Setting,
    default: u64,
    min: u64,
    max: u64,
) -> Result<nat, Seq<char>> {
    match value {
        Setting::Unset => Ok(default as nat),
        Setting::NotText => Err(environment::not_text_refusal(name)),
        Setting::Text(value) => match text::unsigned_value(value, u64::MAX as nat) {
            Some(n) if min <= n <= max => Ok(n),
            _ => Err(
                "invalid "@ + name + " `"@ + value + "`: must be an integer between "@
                    + text::decimal(min as nat) + " and "@ + text::decimal(max as nat),
            ),
        },
    }
}

/// A numeric result, as values.
pub open spec fn number_view(r: Result<u64, String>) -> Result<nat, Seq<char>> {
    match r {
        Ok(n) => Ok(n as nat),
        Err(detail) => Err(detail@),
    }
}

/// Resolves a bounded knob.
pub fn parse_bounded_env(name: &str, value: &Variable, default: u64, min: u64, max: u64) -> (r:
    Result<u64, String>)
    ensures
        number_view(r) == bounded_knob(name@, value@, default, min, max),
{
    match value {
        Variable::Unset => Ok(default),
        Variable::NotText => Err(environment::refuse_not_text(name)),
        Variable::Text(value) => match text::parse_unsigned(value.as_str(), u64::MAX) {
            Some(n) if min <= n && n <= max => Ok(n),
            _ => {
                let mut detail = "invalid ".to_owned();
                detail.append(name);
                detail.append(" `");
                detail.append(value.as_str());
                detail.append("`: must be an integer between ");
                text::push_decimal(&mut detail, min);
                detail.append(" and ");
                text::push_decimal(&mut detail, max);
                Err(detail)
            },
        },
    }
}

/// A knob that is unset takes its default; a value must spell an integer of at
/// least `least` that `most` admits.
pub open spec fn at_least_knob(
    name: Seq<char>,
    value: Setting,
    default: nat,
    least: nat,
    most: nat,
) -> Result<nat, Seq<char>> {
    match value {
        Setting::Unset => Ok(default),
        Setting::NotText => Err(environment::not_text_refusal(name)),
        Setting::Text(value) => match text::unsigned_value(value, most) {
            Some(n) if n >= least => Ok(n),
            _ => Err(
                "invalid "@ + name + " `"@ + value + "`: must be an integer of at least "@
                    + text::decimal(least),
            ),
        },
    }
}

fn parse_at_least(name: &str, value: &str, least: u64, most: u64) -> (r: Result<u64, String>)
    ensures
        number_view(r) == at_least_knob(name@, Setting::Text(value@), 0, least as nat, most as nat),
{
    match text::parse_unsigned(value, most) {
        Some(n) if n >= least => Ok(n),
        _ => {
            let mut detail = "invalid ".to_owned();
            detail.append(name);
            detail.append(" `");
            detail.append(value);
            detail.append("`: must be an integer of at least ");
            text::push_decimal(&mut detail, least);
            Err(detail)
        },
    }
}

/// A size result, as values.
pub open spec fn size_view(r: Result<usize, String>) -> Result<nat, Seq<char>> {
    match r {
        Ok(n) => Ok(n as nat),
        Err(detail) => Err(detail@),
    }
}

/// Resolves a knob that must be a positive integer.
pub fn parse_positive_env(name: &str, value: &Variable, default: usize) -> (r: Result<
    usize,
    String,
>)
    ensures
        size_view(r) == at_least_knob(
            name@,
            value@,
            default as nat,
            1,
            usize::MAX as nat,
        ),
{
    match value {
        Variable::Unset => Ok(default),
        Variable::NotText => Err(environment::refuse_not_text(name)),
        Variable::Text(value) => match parse_at_least(name, value.as_str(), 1, usize::MAX as u64) {
            Ok(n) => Ok(n as usize),
            Err(detail) => Err(detail),
        },
    }
}

/// A bounded knob whose value must also be a size on this machine.
pub open spec fn sized_knob(name: Seq<char>, value: Setting, bounds: Bounds) -> Result<
    nat,
    Seq<char>,
> {
    match bounded_knob(name, value, bounds.default, bounds.min, bounds.max) {
        Ok(n) => if n <= usize::MAX {
            Ok(n)
        } else {
            Err(name + " is not representable"@)
        },
        Err(detail) => Err(detail),
    }
}

fn parse_sized_env(name: &str, value: &Variable, bounds: Bounds) -> (r: Result<usize, String>)
    ensures
        size_view(r) == sized_knob(name@, value@, bounds),
{
    match parse_bounded_env(name, value, bounds.default, bounds.min, bounds.max) {
        Ok(n) => {
            if n <= usize::MAX as u64 {
                Ok(n as usize)
            } else {
                let mut detail = name.to_owned();
                detail.append(" is not representable");
                Err(detail)
            }
        },
        Err(detail) => Err(detail),
    }
}

/// The audit floor that the environment asks for, in any case; minimal where
/// it does not.
pub open spec fn audit_floor_knob(value: Setting) -> Result<AuditFloor, Seq<char>> {
    match value {
        Setting::Unset => Ok(AuditFloor::Minimal),
        Setting::NotText => Err(environment::not_text_refusal("QCG_AUDIT_FLOOR"@)),
        Setting::Text(value) => if text::lower(value) == "minimal"@ {
            Ok(AuditFloor::Minimal)
        } else if text::lower(value) == "standard"@ {
            Ok(AuditFloor::Standard)
        } else {
            Err("invalid QCG_AUDIT_FLOOR `"@ + value + "`: must be `minimal` or `standard`"@)
        },
    }
}

/// Resolves the audit floor.
pub fn resolve_audit_floor(value: &Variable) -> (r: Result<AuditFloor, String>)
    ensures
        match r {
            Ok(floor) => audit_floor_knob(value@) == Ok::<_, Seq<char>>(floor),
            Err(detail) => audit_floor_knob(value@) == Err::<AuditFloor, _>(detail@),
        },
{
    match value {
        Variable::Unset => Ok(AuditFloor::Minimal),
        Variable::NotText => Err(environment::refuse_not_text("QCG_AUDIT_FLOOR")),
        Variable::Text(value) => {
            let lower = text::to_lower(value.as_str());
            if text::same_text(lower.as_str(), "minimal") {
                Ok(AuditFloor::Minimal)
            } else if text::same_text(lower.as_str(), "standard") {
                Ok(AuditFloor::Standard)
            } else {
                let mut detail = "invalid QCG_AUDIT_FLOOR `".to_owned();
                detail.append(value.as_str());
                detail.append("`: must be `minimal` or `standard`");
                Err(detail)
            }
        },
    }
}

/// Why the explicit limits are refused, if they are: a limit of zero would
/// block every request.
pub open spec fn zero_limit_refusal(config: ServerConfig) -> Option<Seq<char>> {
    if config.max_request_bytes == Some(0usize) {
        Some("max_request_bytes must be greater than zero when set"@)
    } else if config.max_artifact_bytes == Some(0u64) {
        Some("max_artifact_bytes must be greater than zero when set"@)
    } else if config.max_artifact_entries == Some(0usize) {
        Some("max_artifact_entries must be greater than zero when set"@)
    } else if config.max_asset_bytes == Some(0usize) {
        Some("max_asset_bytes must be greater than zero when set"@)
    } else {
        None
    }
}

/// Refuses explicit limits of zero.
pub fn reject_zero_explicit_max(config: &ServerConfig) -> (r: Result<(), String>)
    ensures
        match r {
            Ok(()) => zero_limit_refusal(*config) is None,
            Err(detail) => zero_limit_refusal(*config) == Some(detail@),
        },
{
    if let Some(0) = config.max_request_bytes {
        return Err("max_request_bytes must be greater than zero when set".to_owned());
    }
    if let Some(0) = config.max_artifact_bytes {
        return Err("max_artifact_bytes must be greater than zero when set".to_owned());
    }
    if let Some(0) = config.max_artifact_entries {
        return Err("max_artifact_entries must be greater than zero when set".to_owned());
    }
    if let Some(0) = config.max_asset_bytes {
        return Err("max_asset_bytes must be greater than zero when set".to_owned());
    }
    Ok(())
}

/// Why the run limits are refused, if they are.
pub open spec fn run_limit_refusal(active: usize, tracked_runs: usize) -> Option<Seq<char>> {
    if active == 0 {
        Some("max_active_runs must be greater than zero"@)
    } else if active > MAX_ACTIVE_RUNS {
        Some("max_active_runs must be at most 65536"@)
    } else if tracked_runs < active {
        Some(
            "max_tracked_runs must be at least max_active_runs ("@ + text::decimal(active as nat)
                + ")"@,
        )
    } else if tracked_runs > MAX_TRACKED_RUNS {
        Some("max_tracked_runs must be at most 1000000"@)
    } else {
        None
    }
}

/// Some directory is given as an empty path.
pub open spec fn has_empty(dirs: Seq<String>) -> bool {
    exists|i: int| 0 <= i < dirs.len() && (#[trigger] dirs[i])@.len() == 0
}

/// Why the paths and the token are refused, if they are: empty ones would
/// silently stand for something else.
pub open spec fn empty_value_refusal(config: ServerConfig) -> Option<Seq<char>> {
    if config.generators_dir@.len() == 0 {
        Some("generators_dir must not be empty"@)
    } else if config.runs_dir@.len() == 0 {
        Some("runs_dir must not be empty"@)
    } else if has_empty(config.extra_generators_dirs@) {
        Some("extra_generators_dirs must not contain an empty path"@)
    } else if config.providers_path is Some && config.providers_path->0@.len() == 0 {
        Some("providers_path must not be empty when set"@)
    } else if config.api_token is Some && config.api_token->0@.len() == 0 {
        Some("api_token must not be empty when set"@)
    } else {
        None
    }
}

/// The first of two refusals, if either is one.
pub open spec fn first_refusal(a: Option<Seq<char>>, b: Option<Seq<char>>) -> Option<Seq<char>> {
    if a is Some {
        a
    } else {
        b
    }
}

/// Why the flags are refused, if they are.
pub open spec fn config_refusal(config: ServerConfig) -> Option<Seq<char>> {
    first_refusal(
        run_limit_refusal(config.max_active_runs, config.max_tracked_runs),
        first_refusal(zero_limit_refusal(config), empty_value_refusal(config)),
    )
}

fn check_run_limits(active: usize, tracked_runs: usize) -> (r: Result<(), String>)
    ensures
        match r {
            Ok(()) => run_limit_refusal(active, tracked_runs) is None,
            Err(detail) => run_limit_refusal(active, tracked_runs) == Some(detail@),
        },
{
    if active == 0 {
        return Err("max_active_runs must be greater than zero".to_owned());
    }
    if active > MAX_ACTIVE_RUNS {
        return Err("max_active_runs must be at most 65536".to_owned());
    }
    if tracked_runs < active {
        let mut detail = "max_tracked_runs must be at least max_active_runs (".to_owned();
        text::push_decimal(&mut detail, active as u64);
        detail.append(")");
        return Err(detail);
    }
    if tracked_runs > MAX_TRACKED_RUNS {
        return Err("max_tracked_runs must be at most 1000000".to_owned());
    }
    Ok(())
}

fn contains_empty(dirs: &Vec<String>) -> (r: bool)
    ensures
        r == has_empty(dirs@),
{
    let mut i: usize = 0;
    while i < dirs.len()
        invariant
            i <= dirs@.len(),
            forall|j: int| 0 <= j < i ==> (#[trigger] dirs@[j])@.len() > 0,
        decreases dirs.len() - i,
    {
        if dirs[i].as_str().is_empty() {
            return true;
        }
        i += 1;
    }
    false
}

fn check_empty_values(config: &ServerConfig) -> (r: Result<(), String>)
    ensures
        match r {
            Ok(()) => empty_value_refusal(*config) is None,
            Err(detail) => empty_value_refusal(*config) == Some(detail@),
        },
{
    if config.generators_dir.as_str().is_empty() {
        return Err("generators_dir must not be empty".to_owned());
    }
    if config.runs_dir.as_str().is_empty() {
        return Err("runs_dir must not be empty".to_owned());
    }
    if contains_empty(&config.extra_generators_dirs) {
        return Err("extra_generators_dirs must not contain an empty path".to_owned());
    }
    if let Some(path) = &config.providers_path {
        if path.as_str().is_empty() {
            return Err("providers_path must not be empty when set".to_owned());
        }
    }
    if let Some(token) = &config.api_token {
        if token.as_str().is_empty() {
            return Err("api_token must not be empty when set".to_owned());
        }
    }
    Ok(())
}

/// Checks the flags that need no environment.
pub fn check_config(config: &ServerConfig) -> (r: Result<(), String>)
    ensures
        match r {
            Ok(()) => config_refusal(*config) is None,
            Err(detail) => config_refusal(*config) == Some(detail@),
        },
{
    match check_run_limits(config.max_active_runs, config.max_tracked_runs) {
        Ok(()) => {},
        Err(detail) => {
            return Err(detail);
        },
    }
    match reject_zero_explicit_max(config) {
        Ok(()) => {},
        Err(detail) => {
            return Err(detail);
        },
    }
    check_empty_values(config)
}

/// Deployment policy, resolved once per boot. Requests never go back to the
/// environment.
#[derive(Debug, Clone, PartialEq, Eq)]
pub struct ResolvedServerPolicy {
    pub idempotency_ttl_secs: u64,
    pub idempotency_max_entries: usize,
    pub max_total_steps: Option<usize>,
    /// The cross-origin allowlist; empty means no cross-origin access.
    pub validated_cors: Vec<String>,
    pub auto_gc: bool,
    pub preemption_enabled: bool,
    /// `None` leaves the server unthrottled.
    pub rate_limit: Option<RateLimitPolicy>,
    pub audit_floor: AuditFloor,
    /// `None` disables export.
    pub otlp: Option<OtlpConfig>,
    pub gc_keep: usize,
    pub gc_keep_failed: usize,
    pub gc_interval_secs: u64,
    /// `None` uses the number of processors.
    pub max_parallel_steps: Option<usize>,
    pub live_event_channel_capacity: usize,
    pub journal_poll_interval_millis: u64,
    pub max_directory_scan_entries: usize,
    pub shared_store_rescan_secs: u64,
    pub queued_resumer_secs: u64,
    pub shutdown_drain_secs: u64,
    pub shutdown_settle_secs: u64,
}

/// The lifetime of a committed mapping.
pub open spec fn ttl_knob(env: Environment, defaults: PolicyDefaults) -> Result<nat, Seq<char>> {
    config::positive_knob(
        "QCG_IDEMPOTENCY_TTL_SECS"@,
        env.idempotency_ttl_secs@,
        defaults.idempotency_ttl_secs as nat,
        u64::MAX as nat,
    )
}

/// The capacity of the in-memory idempotency table.
pub open spec fn max_entries_knob(env: Environment, defaults: PolicyDefaults) -> Result<
    nat,
    Seq<char>,
> {
    config::positive_knob(
        "QCG_IDEMPOTENCY_MAX_ENTRIES"@,
        env.idempotency_max_entries@,
        defaults.idempotency_max_entries as nat,
        usize::MAX as nat,
    )
}

/// The cross-origin allowlist; a build without cross-origin support takes none.
pub open spec fn origins_knob(config: ServerConfig, cors_enabled: bool) -> Result<
    Seq<Seq<char>>,
    Seq<char>,
> {
    if !cors_enabled && config.cors_origins@.len() > 0 {
        Err(cors::cors_disabled_detail())
    } else {
        cors::allowlist(config.cors_origins.deep_view())
    }
}

/// The rate limit.
pub open spec fn rate_knob(env: Environment) -> Result<
    Option<rate_limit::PolicyModel>,
    Seq<char>,
> {
    rate_limit::rate_limit_policy(
        env.rate_limit_rps@,
        env.rate_limit_burst@,
        env.rate_limit_identity_header@,
    )
}

/// The span export.
pub open spec fn export_knob(env: Environment) -> Result<Option<otlp::OtlpModel>, Seq<char>> {
    otlp::otlp_config(env.otlp_endpoint@, env.otlp_interval_ms@)
}

/// The capacity of a run's live channel.
pub open spec fn channel_knob(env: Environment, defaults: PolicyDefaults) -> Result<
    nat,
    Seq<char>,
> {
    sized_knob(
        "QCG_LIVE_EVENT_CHANNEL_CAPACITY"@,
        env.live_event_channel_capacity@,
        defaults.live_event_channel_capacity,
    )
}

/// The cadence at which journals are followed.
pub open spec fn poll_knob(env: Environment, defaults: PolicyDefaults) -> Result<nat, Seq<char>> {
    bounded_knob(
        "QCG_JOURNAL_POLL_INTERVAL_MS"@,
        env.journal_poll_interval_ms@,
        defaults.journal_poll_interval_millis.default,
        defaults.journal_poll_interval_millis.min,
        defaults.journal_poll_interval_millis.max,
    )
}

/// The cap on directory scans.
pub open spec fn scan_knob(env: Environment, defaults: PolicyDefaults) -> Result<nat, Seq<char>> {
    sized_knob(
        "QCG_MAX_DIRECTORY_SCAN_ENTRIES"@,
        env.max_directory_scan_entries@,
        defaults.max_directory_scan_entries,
    )
}

/// The cadence of the scan for abandoned runs.
pub open spec fn rescan_knob(env: Environment, defaults: PolicyDefaults) -> Result<
    nat,
    Seq<char>,
> {
    bounded_knob(
        "QCG_SHARED_RESCAN_SECS"@,
        env.shared_rescan_secs@,
        RESCAN_SECS,
        defaults.store_rescan_min_secs,
        defaults.store_rescan_max_secs,
    )
}

/// The cadence of the scan for queued runs.
pub open spec fn resumer_knob(env: Environment, defaults: PolicyDefaults) -> Result<
    nat,
    Seq<char>,
> {
    bounded_knob(
        "QCG_QUEUED_RESUMER_SECS"@,
        env.queued_resumer_secs@,
        RESCAN_SECS,
        defaults.store_rescan_min_secs,
        defaults.store_rescan_max_secs,
    )
}

/// The bound on the HTTP drain.
pub open spec fn drain_knob(env: Environment, defaults: PolicyDefaults) -> Result<
    nat,
    Seq<char>,
> {
    bounded_knob(
        "QCG_SHUTDOWN_DRAIN_SECS"@,
        env.shutdown_drain_secs@,
        DRAIN_TIMEOUT_SECS,
        defaults.shutdown_phase_min_secs,
        defaults.shutdown_phase_max_secs,
    )
}

/// The bound on settlement.
pub open spec fn settle_knob(env: Environment, defaults: PolicyDefaults) -> Result<
    nat,
    Seq<char>,
> {
    bounded_knob(
        "QCG_SHUTDOWN_SETTLE_SECS"@,
        env.shutdown_settle_secs@,
        SHUTDOWN_DEADLINE_SECS,
        defaults.shutdown_phase_min_secs,
        defaults.shutdown_phase_max_secs,
    )
}

/// The cap on parallel steps; zero where it is unset.
pub open spec fn parallel_knob(env: Environment) -> Result<nat, Seq<char>> {
    at_least_knob(
        "QCG_MAX_PARALLEL_STEPS"@,
        env.max_parallel_steps@,
        0,
        1,
        usize::MAX as nat,
    )
}

/// How many runs the retention sweep keeps.
pub open spec fn keep_knob(env: Environment, defaults: PolicyDefaults) -> Result<nat, Seq<char>> {
    at_least_knob(
        "QCG_GC_KEEP"@,
        env.gc_keep@,
        defaults.gc_keep as nat,
        1,
        usize::MAX as nat,
    )
}

/// How many failed runs the retention sweep keeps.
pub open spec fn keep_failed_knob(env: Environment, defaults: PolicyDefaults) -> Result<
    nat,
    Seq<char>,
> {
    at_least_knob(
        "QCG_GC_KEEP_FAILED"@,
        env.gc_keep_failed@,
        defaults.gc_keep_failed as nat,
        1,
        usize::MAX as nat,
    )
}

/// The cadence of the retention sweep: no more than once a minute.
pub open spec fn gc_interval_knob(env: Environment, defaults: PolicyDefaults) -> Result<
    nat,
    Seq<char>,
> {
    at_least_knob(
        "QCG_GC_INTERVAL_SECS"@,
        env.gc_interval_secs@,
        defaults.gc_interval_secs as nat,
        60,
        u64::MAX as nat,
    )
}

/// The complaint of a knob, if it has one.
pub open spec fn refusal_of<T>(knob: Result<T, Seq<char>>) -> Option<Seq<char>> {
    match knob {
        Ok(_) => None,
        Err(detail) => Some(detail),
    }
}

/// The complaint of a knob under a heading, if it has one.
pub open spec fn refusal_under<T>(heading: Seq<char>, knob: Result<T, Seq<char>>) -> Option<
    Seq<char>,
> {
    match knob {
        Ok(_) => None,
        Err(detail) => Some(heading + detail),
    }
}

/// A parsed switch, as values.
pub open spec fn switch_view(switch: Result<bool, String>) -> Result<bool, Seq<char>> {
    match switch {
        Ok(on) => Ok(on),
        Err(detail) => Err(detail@),
    }
}

/// The step ceiling of the flags.
pub open spec fn steps_knob(config: ServerConfig) -> Result<Option<usize>, Seq<char>> {
    if config.max_total_steps == Some(0usize) {
        Err("QCG_MAX_TOTAL_STEPS must be greater than zero"@)
    } else {
        Ok(config.max_total_steps)
    }
}

/// Why the features of the deployment are refused, if they are: the first
/// complaint in the order in which they are resolved.
pub open spec fn feature_refusal(
    config: ServerConfig,
    env: Environment,
    defaults: PolicyDefaults,
    cors_enabled: bool,
) -> Option<Seq<char>> {
    first_refusal(
        refusal_under("invalid idempotency configuration: "@, ttl_knob(env, defaults)),
        first_refusal(
            refusal_under("invalid idempotency configuration: "@, max_entries_knob(env, defaults)),
            first_refusal(
                refusal_under(
                    "invalid max_total_steps step budget configuration: "@,
                    steps_knob(config),
                ),
                first_refusal(
                    refusal_under(
                        "invalid CORS configuration: "@,
                        origins_knob(config, cors_enabled),
                    ),
                    first_refusal(
                        refusal_under("invalid GC configuration: "@, switch_view(env.auto_gc)),
                        first_refusal(
                            refusal_under(
                                "invalid preemption configuration: "@,
                                switch_view(env.preemption),
                            ),
                            first_refusal(
                                refusal_under(
                                    "invalid rate limit configuration: "@,
                                    rate_knob(env),
                                ),
                                refusal_of(export_knob(env)),
                            ),
                        ),
                    ),
                ),
            ),
        ),
    )
}

/// Why the cadences and capacities are refused, if they are.
pub open spec fn cadence_refusal(env: Environment, defaults: PolicyDefaults) -> Option<Seq<char>> {
    first_refusal(
        refusal_of(channel_knob(env, defaults)),
        first_refusal(
            refusal_of(poll_knob(env, defaults)),
            first_refusal(
                refusal_of(scan_knob(env, defaults)),
                first_refusal(
                    refusal_of(rescan_knob(env, defaults)),
                    refusal_of(resumer_knob(env, defaults)),
                ),
            ),
        ),
    )
}

/// Why the shutdown bounds are refused, if they are: settlement may not be
/// given less time than the drain.
pub open spec fn shutdown_refusal(env: Environment, defaults: PolicyDefaults) -> Option<Seq<char>> {
    match drain_knob(env, defaults) {
        Err(detail) => Some(detail),
        Ok(drain) => match settle_knob(env, defaults) {
            Err(detail) => Some(detail),
            Ok(settle) => if settle < drain {
                Some("QCG_SHUTDOWN_SETTLE_SECS must be at least QCG_SHUTDOWN_DRAIN_SECS"@)
            } else {
                None
            },
        },
    }
}

/// Why the retention and audit knobs are refused, if they are.
pub open spec fn retention_refusal(env: Environment, defaults: PolicyDefaults) -> Option<
    Seq<char>,
> {
    first_refusal(
        refusal_of(parallel_knob(env)),
        first_refusal(
            refusal_of(keep_knob(env, defaults)),
            first_refusal(
                refusal_of(keep_failed_knob(env, defaults)),
                first_refusal(
                    refusal_of(gc_interval_knob(env, defaults)),
                    refusal_of(audit_floor_knob(env.audit_floor@)),
                ),
            ),
        ),
    )
}

/// Why a boot is refused, if it is: the first complaint in the order in which
/// the policy is resolved.
pub open spec fn policy_refusal(
    config: ServerConfig,
    env: Environment,
    defaults: PolicyDefaults,
    cors_enabled: bool,
) -> Option<Seq<char>> {
    first_refusal(
        feature_refusal(config, env, defaults, cors_enabled),
        first_refusal(
            cadence_refusal(env, defaults),
            first_refusal(
                shutdown_refusal(env, defaults),
                first_refusal(retention_refusal(env, defaults), config_refusal(config)),
            ),
        ),
    )
}

/// The features of a policy are those that the flags and the environment give.
pub open spec fn has_features(
    policy: ResolvedServerPolicy,
    config: ServerConfig,
    env: Environment,
    defaults: PolicyDefaults,
    cors_enabled: bool,
) -> bool {
    &&& ttl_knob(env, defaults) == Ok::<_, Seq<char>>(policy.idempotency_ttl_secs as nat)
    &&& max_entries_knob(env, defaults) == Ok::<_, Seq<char>>(policy.idempotency_max_entries as nat)
    &&& policy.max_total_steps == config.max_total_steps
    &&& origins_knob(config, cors_enabled) == Ok::<_, Seq<char>>(policy.validated_cors.deep_view())
    &&& env.auto_gc == Ok::<_, String>(policy.auto_gc)
    &&& env.preemption == Ok::<_, String>(policy.preemption_enabled)
    &&& rate_knob(env) == Ok::<_, Seq<char>>(rate_limit::policy_view(policy.rate_limit))
    &&& export_knob(env) == Ok::<_, Seq<char>>(otlp::config_view(policy.otlp))
}

/// The operational values of a policy are those that the environment gives.
pub open spec fn has_operations(
    policy: ResolvedServerPolicy,
    env: Environment,
    defaults: PolicyDefaults,
) -> bool {
    &&& channel_knob(env, defaults) == Ok::<_, Seq<char>>(policy.live_event_channel_capacity as nat)
    &&& poll_knob(env, defaults) == Ok::<_, Seq<char>>(policy.journal_poll_interval_millis as nat)
    &&& scan_knob(env, defaults) == Ok::<_, Seq<char>>(policy.max_directory_scan_entries as nat)
    &&& rescan_knob(env, defaults) == Ok::<_, Seq<char>>(policy.shared_store_rescan_secs as nat)
    &&& resumer_knob(env, defaults) == Ok::<_, Seq<char>>(policy.queued_resumer_secs as nat)
    &&& drain_knob(env, defaults) == Ok::<_, Seq<char>>(policy.shutdown_drain_secs as nat)
    &&& settle_knob(env, defaults) == Ok::<_, Seq<char>>(policy.shutdown_settle_secs as nat)
    &&& parallel_knob(env) == Ok::<_, Seq<char>>(
        match policy.max_parallel_steps {
            None => 0nat,
            Some(n) => n as nat,
        },
    )
    &&& policy.max_parallel_steps is Some == env.max_parallel_steps is Text
    &&& keep_knob(env, defaults) == Ok::<_, Seq<char>>(policy.gc_keep as nat)
    &&& keep_failed_knob(env, defaults) == Ok::<_, Seq<char>>(policy.gc_keep_failed as nat)
    &&& gc_interval_knob(env, defaults) == Ok::<_, Seq<char>>(policy.gc_interval_secs as nat)
    &&& audit_floor_knob(env.audit_floor@) == Ok::<_, Seq<char>>(policy.audit_floor)
}

fn under(heading: &str, detail: String) -> (r: String)
    ensures
        r@ == heading@ + detail@,
{
    let mut s = heading.to_owned();
    s.append(detail.as_str());
    s
}

struct Features {
    idempotency_ttl_secs: u64,
    idempotency_max_entries: usize,
    validated_cors: Vec<String>,
    auto_gc: bool,
    preemption_enabled: bool,
    rate_limit: Option<RateLimitPolicy>,
    otlp: Option<OtlpConfig>,
}

fn resolve_features(
    config: &ServerConfig,
    env: &Environment,
    defaults: &PolicyDefaults,
    cors_enabled: bool,
) -> (r: Result<Features, String>)
    ensures
        match r {
            Ok(f) => {
                &&& feature_refusal(*config, *env, *defaults, cors_enabled) is None
                &&& ttl_knob(*env, *defaults) == Ok::<_, Seq<char>>(f.idempotency_ttl_secs as nat)
                &&& max_entries_knob(*env, *defaults) == Ok::<_, Seq<char>>(
                    f.idempotency_max_entries as nat,
                )
                &&& origins_knob(*config, cors_enabled) == Ok::<_, Seq<char>>(
                    f.validated_cors.deep_view(),
                )
                &&& env.auto_gc == Ok::<_, String>(f.auto_gc)
                &&& env.preemption == Ok::<_, String>(f.preemption_enabled)
                &&& rate_knob(*env) == Ok::<_, Seq<char>>(rate_limit::policy_view(f.rate_limit))
                &&& export_knob(*env) == Ok::<_, Seq<char>>(otlp::config_view(f.otlp))
            },
            Err(detail) => feature_refusal(*config, *env, *defaults, cors_enabled) == Some(detail@),
        },
{
    let idempotency_ttl_secs: u64 = match config::effective_idempotency_ttl(
        &env.idempotency_ttl_secs,
        defaults.idempotency_ttl_secs,
    ) {
        Ok(secs) => secs,
        Err(detail) => {
            return Err(under("invalid idempotency configuration: ", detail));
        },
    };
    let idempotency_max_entries: usize = match config::effective_idempotency_max_entries(
        &env.idempotency_max_entries,
        defaults.idempotency_max_entries,
    ) {
        Ok(n) => n,
        Err(detail) => {
            return Err(under("invalid idempotency configuration: ", detail));
        },
    };
    match effective_max_total_steps(config.max_total_steps) {
        Ok(_) => {},
        Err(detail) => {
            return Err(under("invalid max_total_steps step budget configuration: ", detail));
        },
    }
    let validated_cors = match cors::parse_cors_origins(&config.cors_origins, cors_enabled) {
        Ok(list) => list,
        Err(detail) => {
            return Err(under("invalid CORS configuration: ", detail));
        },
    };
    let auto_gc = match &env.auto_gc {
        Ok(on) => *on,
        Err(detail) => {
            return Err(under("invalid GC configuration: ", detail.clone()));
        },
    };
    let preemption_enabled = match &env.preemption {
        Ok(on) => *on,
        Err(detail) => {
            return Err(under("invalid preemption configuration: ", detail.clone()));
        },
    };
    let rate_limit = match rate_limit::resolve_rate_limit_policy(
        &env.rate_limit_rps,
        &env.rate_limit_burst,
        &env.rate_limit_identity_header,
    ) {
        Ok(policy) => policy,
        Err(detail) => {
            return Err(under("invalid rate limit configuration: ", detail));
        },
    };
    let otlp = match otlp::resolve_otlp_config(&env.otlp_endpoint, &env.otlp_interval_ms) {
        Ok(otlp) => otlp,
        Err(detail) => {
            return Err(detail);
        },
    };
    Ok(
        Features {
            idempotency_ttl_secs,
            idempotency_max_entries,
            validated_cors,
            auto_gc,
            preemption_enabled,
            rate_limit,
            otlp,
        },
    )
}

struct Cadences {
    live_event_channel_capacity: usize,
    journal_poll_interval_millis: u64,
    max_directory_scan_entries: usize,
    shared_store_rescan_secs: u64,
    queued_resumer_secs: u64,
}

fn resolve_cadences(env: &Environment, defaults: &PolicyDefaults) -> (r: Result<Cadences, String>)
    ensures
        match r {
            Ok(c) => {
                &&& cadence_refusal(*env, *defaults) is None
                &&& channel_knob(*env, *defaults) == Ok::<_, Seq<char>>(
                    c.live_event_channel_capacity as nat,
                )
                &&& poll_knob(*env, *defaults) == Ok::<_, Seq<char>>(
                    c.journal_poll_interval_millis as nat,
                )
                &&& scan_knob(*env, *defaults) == Ok::<_, Seq<char>>(
                    c.max_directory_scan_entries as nat,
                )
                &&& rescan_knob(*env, *defaults) == Ok::<_, Seq<char>>(
                    c.shared_store_rescan_secs as nat,
                )
                &&& resumer_knob(*env, *defaults) == Ok::<_, Seq<char>>(c.queued_resumer_secs as nat)
            },
            Err(detail) => cadence_refusal(*env, *defaults) == Some(detail@),
        },
{
    let live_event_channel_capacity: usize = match parse_sized_env(
        "QCG_LIVE_EVENT_CHANNEL_CAPACITY",
        &env.live_event_channel_capacity,
        defaults.live_event_channel_capacity,
    ) {
        Ok(n) => n,
        Err(detail) => {
            return Err(detail);
        },
    };
    let poll = defaults.journal_poll_interval_millis;
    let journal_poll_interval_millis: u64 = match parse_bounded_env(
        "QCG_JOURNAL_POLL_INTERVAL_MS",
        &env.journal_poll_interval_ms,
        poll.default,
        poll.min,
        poll.max,
    ) {
        Ok(n) => n,
        Err(detail) => {
            return Err(detail);
        },
    };
    let max_directory_scan_entries: usize = match parse_sized_env(
        "QCG_MAX_DIRECTORY_SCAN_ENTRIES",
        &env.max_directory_scan_entries,
        defaults.max_directory_scan_entries,
    ) {
        Ok(n) => n,
        Err(detail) => {
            return Err(detail);
        },
    };
    let shared_store_rescan_secs: u64 = match parse_bounded_env(
        "QCG_SHARED_RESCAN_SECS",
        &env.shared_rescan_secs,
        RESCAN_SECS,
        defaults.store_rescan_min_secs,
        defaults.store_rescan_max_secs,
    ) {
        Ok(n) => n,
        Err(detail) => {
            return Err(detail);
        },
    };
    let queued_resumer_secs: u64 = match parse_bounded_env(
        "QCG_QUEUED_RESUMER_SECS",
        &env.queued_resumer_secs,
        RESCAN_SECS,
        defaults.store_rescan_min_secs,
        defaults.store_rescan_max_secs,
    ) {
        Ok(n) => n,
        Err(detail) => {
            return Err(detail);
        },
    };
    Ok(
        Cadences {
            live_event_channel_capacity,
            journal_poll_interval_millis,
            max_directory_scan_entries,
            shared_store_rescan_secs,
            queued_resumer_secs,
        },
    )
}

/// The bounds of the two shutdown phases, drain first.
fn resolve_shutdown(env: &Environment, defaults: &PolicyDefaults) -> (r: Result<
    (u64, u64),
    String,
>)
    ensures
        match r {
            Ok((drain, settle)) => {
                &&& shutdown_refusal(*env, *defaults) is None
                &&& drain_knob(*env, *defaults) == Ok::<_, Seq<char>>(drain as nat)
                &&& settle_knob(*env, *defaults) == Ok::<_, Seq<char>>(settle as nat)
            },
            Err(detail) => shutdown_refusal(*env, *defaults) == Some(detail@),
        },
{
    let drain: u64 = match parse_bounded_env(
        "QCG_SHUTDOWN_DRAIN_SECS",
        &env.shutdown_drain_secs,
        DRAIN_TIMEOUT_SECS,
        defaults.shutdown_phase_min_secs,
        defaults.shutdown_phase_max_secs,
    ) {
        Ok(n) => n,
        Err(detail) => {
            return Err(detail);
        },
    };
    let settle: u64 = match parse_bounded_env(
        "QCG_SHUTDOWN_SETTLE_SECS",
        &env.shutdown_settle_secs,
        SHUTDOWN_DEADLINE_SECS,
        defaults.shutdown_phase_min_secs,
        defaults.shutdown_phase_max_secs,
    ) {
        Ok(n) => n,
        Err(detail) => {
            return Err(detail);
        },
    };
    if settle < drain {
        return Err(
            "QCG_SHUTDOWN_SETTLE_SECS must be at least QCG_SHUTDOWN_DRAIN_SECS".to_owned(),
        );
    }
    Ok((drain, settle))
}

struct Retention {
    max_parallel_steps: Option<usize>,
    gc_keep: usize,
    gc_keep_failed: usize,
    gc_interval_secs: u64,
    audit_floor: AuditFloor,
}

fn resolve_retention(env: &Environment, defaults: &PolicyDefaults) -> (r: Result<Retention, String>)
    ensures
        match r {
            Ok(p) => {
                &&& retention_refusal(*env, *defaults) is None
                &&& parallel_knob(*env) == Ok::<_, Seq<char>>(
                    match p.max_parallel_steps {
                        None => 0nat,
                        Some(n) => n as nat,
                    },
                )
                &&& p.max_parallel_steps is Some == env.max_parallel_steps is Text
                &&& keep_knob(*env, *defaults) == Ok::<_, Seq<char>>(p.gc_keep as nat)
                &&& keep_failed_knob(*env, *defaults) == Ok::<_, Seq<char>>(p.gc_keep_failed as nat)
                &&& gc_interval_knob(*env, *defaults) == Ok::<_, Seq<char>>(
                    p.gc_interval_secs as nat,
                )
                &&& audit_floor_knob(env.audit_floor@) == Ok::<_, Seq<char>>(
                    p.audit_floor,
                )
            },
            Err(detail) => retention_refusal(*env, *defaults) == Some(detail@),
        },
{
    let max_parallel_steps = match &env.max_parallel_steps {
        Variable::Unset => None,
        Variable::NotText => {
            return Err(environment::refuse_not_text("QCG_MAX_PARALLEL_STEPS"));
        },
        Variable::Text(value) => match parse_at_least(
            "QCG_MAX_PARALLEL_STEPS",
            value.as_str(),
            1,
            usize::MAX as u64,
        ) {
            Ok(n) => Some(n as usize),
            Err(detail) => {
                return Err(detail);
            },
        },
    };
    let gc_keep: usize = match parse_positive_env("QCG_GC_KEEP", &env.gc_keep, defaults.gc_keep) {
        Ok(n) => n,
        Err(detail) => {
            return Err(detail);
        },
    };
    let gc_keep_failed: usize = match parse_positive_env(
        "QCG_GC_KEEP_FAILED",
        &env.gc_keep_failed,
        defaults.gc_keep_failed,
    ) {
        Ok(n) => n,
        Err(detail) => {
            return Err(detail);
        },
    };
    let gc_interval_secs: u64 = match &env.gc_interval_secs {
        Variable::Unset => defaults.gc_interval_secs,
        Variable::NotText => {
            return Err(environment::refuse_not_text("QCG_GC_INTERVAL_SECS"));
        },
        Variable::Text(value) => match parse_at_least("QCG_GC_INTERVAL_SECS", value.as_str(), 60, u64::MAX) {
            Ok(n) => n,
            Err(detail) => {
                return Err(detail);
            },
        },
    };
    let audit_floor = match resolve_audit_floor(&env.audit_floor) {
        Ok(floor) => floor,
        Err(detail) => {
            return Err(detail);
        },
    };
    Ok(
        Retention {
            max_parallel_steps,
            gc_keep,
            gc_keep_failed,
            gc_interval_secs,
            audit_floor,
        },
    )
}

/// Resolves the deployment policy from the flags and the environment, without
/// touching a port, a lock or a directory. `cors_enabled` says whether this
/// build can serve other origins.
pub fn resolve_server_policy(
    config: &ServerConfig,
    env: &Environment,
    defaults: &PolicyDefaults,
    cors_enabled: bool,
) -> (r: Result<ResolvedServerPolicy, String>)
    ensures
        match r {
            Ok(policy) => {
                &&& policy_refusal(*config, *env, *defaults, cors_enabled) is None
                &&& has_features(policy, *config, *env, *defaults, cors_enabled)
                &&& has_operations(policy, *env, *defaults)
            },
            Err(detail) => policy_refusal(*config, *env, *defaults, cors_enabled) == Some(detail@),
        },
{
    let features = match resolve_features(config, env, defaults, cors_enabled) {
        Ok(features) => features,
        Err(detail) => {
            return Err(detail);
        },
    };
    let cadences = match resolve_cadences(env, defaults) {
        Ok(cadences) => cadences,
        Err(detail) => {
            return Err(detail);
        },
    };
    let (shutdown_drain_secs, shutdown_settle_secs): (u64, u64) = match resolve_shutdown(
        env,
        defaults,
    ) {
        Ok(bounds) => bounds,
        Err(detail) => {
            return Err(detail);
        },
    };
    let retention = match resolve_retention(env, defaults) {
        Ok(retention) => retention,
        Err(detail) => {
            return Err(detail);
        },
    };
    match check_config(config) {
        Ok(()) => {},
        Err(detail) => {
            return Err(detail);
        },
    }
    Ok(
        ResolvedServerPolicy {
            idempotency_ttl_secs: features.idempotency_ttl_secs,
            idempotency_max_entries: features.idempotency_max_entries,
            max_total_steps: config.max_total_steps,
            validated_cors: features.validated_cors,
            auto_gc: features.auto_gc,
            preemption_enabled: features.preemption_enabled,
            rate_limit: features.rate_limit,
            audit_floor: retention.audit_floor,
            otlp: features.otlp,
            gc_keep: retention.gc_keep,
            gc_keep_failed: retention.gc_keep_failed,
            gc_interval_secs: retention.gc_interval_secs,
            max_parallel_steps: retention.max_parallel_steps,
            live_event_channel_capacity: cadences.live_event_channel_capacity,
            journal_poll_interval_millis: cadences.journal_poll_interval_millis,
            max_directory_scan_entries: cadences.max_directory_scan_entries,
            shared_store_rescan_secs: cadences.shared_store_rescan_secs,
            queued_resumer_secs: cadences.queued_resumer_secs,
            shutdown_drain_secs,
            shutdown_settle_secs,
        },
    )
}

/// The part of the policy that the run service is constructed with.
#[derive(Debug, Clone, Copy, PartialEq, Eq)]
pub struct ServiceDeploymentPolicy {
    pub max_total_steps: Option<usize>,
    pub preemption_enabled: bool,
    pub audit_floor: AuditFloor,
    pub gc_keep: usize,
    pub gc_keep_failed: usize,
    pub gc_interval_secs: u64,
    pub max_parallel_steps: Option<usize>,
    pub live_event_channel_capacity: usize,
    pub journal_poll_interval_millis: u64,
    pub max_directory_scan_entries: usize,
    pub shared_store_rescan_secs: u64,
    pub queued_resumer_secs: u64,
}

impl ResolvedServerPolicy {
    /// What the run service is constructed with.
    pub open spec fn deployment(self) -> ServiceDeploymentPolicy {
        ServiceDeploymentPolicy {
            max_total_steps: self.max_total_steps,
            preemption_enabled: self.preemption_enabled,
            audit_floor: self.audit_floor,
            gc_keep: self.gc_keep,
            gc_keep_failed: self.gc_keep_failed,
            gc_interval_secs: self.gc_interval_secs,
            max_parallel_steps: self.max_parallel_steps,
            live_event_channel_capacity: self.live_event_channel_capacity,
            journal_poll_interval_millis: self.journal_poll_interval_millis,
            max_directory_scan_entries: self.max_directory_scan_entries,
            shared_store_rescan_secs: self.shared_store_rescan_secs,
            queued_resumer_secs: self.queued_resumer_secs,
        }
    }

    /// What the run service is constructed with, so that nothing has to be set
    /// on it afterwards.
    pub fn service_policy(&self) -> (r: ServiceDeploymentPolicy)
        ensures
            r == self.deployment(),
    {
        ServiceDeploymentPolicy {
            max_total_steps: self.max_total_steps,
            preemption_enabled: self.preemption_enabled,
            audit_floor: self.audit_floor,
            gc_keep: self.gc_keep,
            gc_keep_failed: self.gc_keep_failed,
            gc_interval_secs: self.gc_interval_secs,
            max_parallel_steps: self.max_parallel_steps,
            live_event_channel_capacity: self.live_event_channel_capacity,
            journal_poll_interval_millis: self.journal_poll_interval_millis,
            max_directory_scan_entries: self.max_directory_scan_entries,
            shared_store_rescan_secs: self.shared_store_rescan_secs,
            queued_resumer_secs: self.queued_resumer_secs,
        }
    }
}

/// The host's defaults lie within the host's own bounds.
pub open spec fn sound_defaults(defaults: PolicyDefaults) -> bool {
    &&& defaults.idempotency_ttl_secs > 0
    &&& defaults.idempotency_max_entries > 0
    &&& defaults.live_event_channel_capacity.min <= defaults.live_event_channel_capacity.default
        <= defaults.live_event_channel_capacity.max
    &&& defaults.journal_poll_interval_millis.min <= defaults.journal_poll_interval_millis.default
        <= defaults.journal_poll_interval_millis.max
    &&& defaults.max_directory_scan_entries.min <= defaults.max_directory_scan_entries.default
        <= defaults.max_directory_scan_entries.max
    &&& defaults.store_rescan_min_secs <= RESCAN_SECS <= defaults.store_rescan_max_secs
    &&& defaults.shutdown_phase_min_secs <= DRAIN_TIMEOUT_SECS <= defaults.shutdown_phase_max_secs
    &&& defaults.shutdown_phase_min_secs <= SHUTDOWN_DEADLINE_SECS
        <= defaults.shutdown_phase_max_secs
    &&& defaults.gc_keep > 0
    &&& defaults.gc_keep_failed > 0
    &&& defaults.gc_interval_secs >= 60
}

/// Whatever the environment says, a policy that boots keeps every bound: no
/// invalid value is folded into one that boots.
pub proof fn an_accepted_policy_keeps_every_bound(
    policy: ResolvedServerPolicy,
    config: ServerConfig,
    env: Environment,
    defaults: PolicyDefaults,
    cors_enabled: bool,
)
    requires
        sound_defaults(defaults),
        policy_refusal(config, env, defaults, cors_enabled) is None,
        has_features(policy, config, env, defaults, cors_enabled),
        has_operations(policy, env, defaults),
    ensures
        policy.idempotency_ttl_secs > 0,
        policy.idempotency_max_entries > 0,
        policy.max_total_steps != Some(0usize),
        defaults.live_event_channel_capacity.min <= policy.live_event_channel_capacity
            <= defaults.live_event_channel_capacity.max,
        defaults.journal_poll_interval_millis.min <= policy.journal_poll_interval_millis
            <= defaults.journal_poll_interval_millis.max,
        defaults.max_directory_scan_entries.min <= policy.max_directory_scan_entries
            <= defaults.max_directory_scan_entries.max,
        defaults.store_rescan_min_secs <= policy.shared_store_rescan_secs
            <= defaults.store_rescan_max_secs,
        defaults.store_rescan_min_secs <= policy.queued_resumer_secs
            <= defaults.store_rescan_max_secs,
        defaults.shutdown_phase_min_secs <= policy.shutdown_drain_secs
            <= policy.shutdown_settle_secs <= defaults.shutdown_phase_max_secs,
        policy.max_parallel_steps != Some(0usize),
        policy.gc_keep > 0,
        policy.gc_keep_failed > 0,
        policy.gc_interval_secs >= 60,
        1 <= config.max_active_runs <= MAX_ACTIVE_RUNS,
        config.max_active_runs <= config.max_tracked_runs <= MAX_TRACKED_RUNS,
        policy.rate_limit matches Some(limit) ==> limit.rps >= 1 && limit.burst >= 1,
        policy.otlp matches Some(export) ==> export.interval_millis >= 100,
        !cors_enabled ==> policy.validated_cors@.len() == 0,
{
    assert(policy.validated_cors.deep_view().len() == policy.validated_cors@.len());
    if !cors_enabled {
        assert(config.cors_origins.deep_view().len() == 0);
    }
}

/// Resolution is a function of its inputs: the same flags and environment give
/// the same numbers, whenever they are resolved.
pub proof fn resolution_is_frozen(
    first: ResolvedServerPolicy,
    second: ResolvedServerPolicy,
    config: ServerConfig,
    env: Environment,
    defaults: PolicyDefaults,
    cors_enabled: bool,
)
    requires
        has_features(first, config, env, defaults, cors_enabled),
        has_features(second, config, env, defaults, cors_enabled),
        has_operations(first, env, defaults),
        has_operations(second, env, defaults),
    ensures
        first.idempotency_ttl_secs == second.idempotency_ttl_secs,
        first.idempotency_max_entries == second.idempotency_max_entries,
        first.max_total_steps == second.max_total_steps,
        first.validated_cors.deep_view() == second.validated_cors.deep_view(),
        first.auto_gc == second.auto_gc,
        first.preemption_enabled == second.preemption_enabled,
        rate_limit::policy_view(first.rate_limit) == rate_limit::policy_view(second.rate_limit),
        first.audit_floor == second.audit_floor,
        otlp::config_view(first.otlp) == otlp::config_view(second.otlp),
        first.gc_keep == second.gc_keep,
        first.gc_keep_failed == second.gc_keep_failed,
        first.gc_interval_secs == second.gc_interval_secs,
        first.max_parallel_steps == second.max_parallel_steps,
        first.live_event_channel_capacity == second.live_event_channel_capacity,
        first.journal_poll_interval_millis == second.journal_poll_interval_millis,
        first.max_directory_scan_entries == second.max_directory_scan_entries,
        first.shared_store_rescan_secs == second.shared_store_rescan_secs,
        first.queued_resumer_secs == second.queued_resumer_secs,
        first.shutdown_drain_secs == second.shutdown_drain_secs,
        first.shutdown_settle_secs == second.shutdown_settle_secs,
{
}

/// The total bound of a shutdown is the sum of its two phases.
pub proof fn the_total_bound_is_both_phases()
    ensures
        TOTAL_SHUTDOWN_BOUND_SECS == DRAIN_TIMEOUT_SECS + SHUTDOWN_DEADLINE_SECS,
{
}

} // verus!
