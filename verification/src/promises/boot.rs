//! Which values the server boots with.
use vstd::prelude::*;
use crate::cors;
use crate::environment::{Setting, Variable};
use crate::otlp;
use crate::policy;
use crate::policy::{AuditFloor, Environment, PolicyDefaults, ResolvedServerPolicy, ServerConfig};
use crate::rate_limit;
use crate::text;

verus! {

/// A variable that is not set, or set to a number between the two.
pub open spec fn is_within(setting: Setting, least: nat, most: nat) -> bool {
    setting is Unset || exists|n: nat|
        setting == Setting::Text(#[trigger] text::decimal(n)) && least <= n <= most
}

/// A value is the one that its variable gives, or the default where it is not
/// set.
pub open spec fn comes_from(setting: Setting, default: nat, n: nat, value: nat) -> bool {
    &&& (setting is Unset ==> value == default)
    &&& (setting == Setting::Text(text::decimal(n)) ==> value == n)
    &&& setting !is NotText
}

/// The time that a mapping is kept and the number of entries that are kept come
/// from their own variables, and are positive.
pub proof fn idempotency_is_configured(
    policy: ResolvedServerPolicy,
    config: ServerConfig,
    env: Environment,
    defaults: PolicyDefaults,
    cors_enabled: bool,
    n: nat,
)
    requires
        policy::has_features(policy, config, env, defaults, cors_enabled),
    ensures
        comes_from(
            env.idempotency_ttl_secs@,
            defaults.idempotency_ttl_secs as nat,
            n,
            policy.idempotency_ttl_secs as nat,
        ),
        comes_from(
            env.idempotency_max_entries@,
            defaults.idempotency_max_entries as nat,
            n,
            policy.idempotency_max_entries as nat,
        ),
        env.idempotency_ttl_secs is Text ==> policy.idempotency_ttl_secs > 0,
        env.idempotency_max_entries is Text ==> policy.idempotency_max_entries > 0,
{
    super::texts::numbers_are_read_back(n, u64::MAX as nat, Seq::empty());
    super::texts::numbers_are_read_back(n, usize::MAX as nat, Seq::empty());
}

/// The switches, the step budget and the origins are those that were given.
pub proof fn features_are_those_that_were_given(
    policy: ResolvedServerPolicy,
    config: ServerConfig,
    env: Environment,
    defaults: PolicyDefaults,
    cors_enabled: bool,
)
    requires
        policy::has_features(policy, config, env, defaults, cors_enabled),
    ensures
        env.auto_gc == Ok::<bool, String>(policy.auto_gc),
        env.preemption == Ok::<bool, String>(policy.preemption_enabled),
        policy.max_total_steps == config.max_total_steps,
        cors::allowlist(config.cors_origins.deep_view()) == Ok::<Seq<Seq<char>>, Seq<char>>(
            policy.validated_cors.deep_view(),
        ),
        !cors_enabled ==> config.cors_origins@.len() == 0,
        rate_limit::rate_limit_policy(
            env.rate_limit_rps@,
            env.rate_limit_burst@,
            env.rate_limit_identity_header@,
        ) == Ok::<Option<rate_limit::PolicyModel>, Seq<char>>(
            rate_limit::policy_view(policy.rate_limit),
        ),
        otlp::otlp_config(env.otlp_endpoint@, env.otlp_interval_ms@) == Ok::<
            Option<otlp::OtlpModel>,
            Seq<char>,
        >(otlp::config_view(policy.otlp)),
{
}

/// Each cadence and each bound comes from its own variable, within its own
/// bounds: the rescans are every five seconds, a drain takes thirty seconds and
/// the settlement a hundred and fifty where nothing is set.
pub proof fn operations_are_configured(
    policy: ResolvedServerPolicy,
    env: Environment,
    defaults: PolicyDefaults,
    n: nat,
)
    requires
        policy::has_operations(policy, env, defaults),
    ensures
        comes_from(
            env.live_event_channel_capacity@,
            defaults.live_event_channel_capacity.default as nat,
            n,
            policy.live_event_channel_capacity as nat,
        ),
        comes_from(
            env.journal_poll_interval_ms@,
            defaults.journal_poll_interval_millis.default as nat,
            n,
            policy.journal_poll_interval_millis as nat,
        ),
        comes_from(
            env.max_directory_scan_entries@,
            defaults.max_directory_scan_entries.default as nat,
            n,
            policy.max_directory_scan_entries as nat,
        ),
        comes_from(env.shared_rescan_secs@, 5, n, policy.shared_store_rescan_secs as nat),
        comes_from(env.queued_resumer_secs@, 5, n, policy.queued_resumer_secs as nat),
        comes_from(env.shutdown_drain_secs@, 30, n, policy.shutdown_drain_secs as nat),
        comes_from(env.shutdown_settle_secs@, 150, n, policy.shutdown_settle_secs as nat),
        comes_from(env.gc_keep@, defaults.gc_keep as nat, n, policy.gc_keep as nat),
        comes_from(
            env.gc_keep_failed@,
            defaults.gc_keep_failed as nat,
            n,
            policy.gc_keep_failed as nat,
        ),
        comes_from(
            env.gc_interval_secs@,
            defaults.gc_interval_secs as nat,
            n,
            policy.gc_interval_secs as nat,
        ),
        env.max_parallel_steps@ is Unset ==> policy.max_parallel_steps is None,
        env.max_parallel_steps@ == Setting::Text(text::decimal(n)) ==> policy.max_parallel_steps
            is Some && policy.max_parallel_steps->0 == n,
{
    super::texts::numbers_are_read_back(n, u64::MAX as nat, Seq::empty());
    super::texts::numbers_are_read_back(n, usize::MAX as nat, Seq::empty());
}

/// What is set is within its bounds.
pub proof fn operations_keep_their_bounds(
    policy: ResolvedServerPolicy,
    env: Environment,
    defaults: PolicyDefaults,
)
    requires
        policy::has_operations(policy, env, defaults),
    ensures
        env.live_event_channel_capacity is Text ==> defaults.live_event_channel_capacity.min
            <= policy.live_event_channel_capacity <= defaults.live_event_channel_capacity.max,
        env.journal_poll_interval_ms is Text ==> defaults.journal_poll_interval_millis.min
            <= policy.journal_poll_interval_millis <= defaults.journal_poll_interval_millis.max,
        env.max_directory_scan_entries is Text ==> defaults.max_directory_scan_entries.min
            <= policy.max_directory_scan_entries <= defaults.max_directory_scan_entries.max,
        env.shared_rescan_secs is Text ==> defaults.store_rescan_min_secs
            <= policy.shared_store_rescan_secs <= defaults.store_rescan_max_secs,
        env.queued_resumer_secs is Text ==> defaults.store_rescan_min_secs
            <= policy.queued_resumer_secs <= defaults.store_rescan_max_secs,
        env.shutdown_drain_secs is Text ==> defaults.shutdown_phase_min_secs
            <= policy.shutdown_drain_secs <= defaults.shutdown_phase_max_secs,
        env.shutdown_settle_secs is Text ==> defaults.shutdown_phase_min_secs
            <= policy.shutdown_settle_secs <= defaults.shutdown_phase_max_secs,
        env.gc_keep is Text ==> policy.gc_keep >= 1,
        env.gc_keep_failed is Text ==> policy.gc_keep_failed >= 1,
        env.gc_interval_secs is Text ==> policy.gc_interval_secs >= 60,
        env.max_parallel_steps is Text ==> policy.max_parallel_steps is Some
            && policy.max_parallel_steps->0 >= 1,
{
}

/// The audit floor is minimal unless `standard` is asked for, in capital or
/// small letters; any other word is refused.
pub proof fn the_audit_floor_is_one_of_two(value: Seq<char>)
    ensures
        policy::audit_floor_knob(Setting::Unset) == Ok::<AuditFloor, Seq<char>>(
            AuditFloor::Minimal,
        ),
        policy::audit_floor_knob(Setting::NotText) is Err,
        policy::audit_floor_knob(Setting::Text(value)) == Ok::<AuditFloor, Seq<char>>(
            AuditFloor::Minimal,
        ) <==> text::lower(value) == "minimal"@,
        policy::audit_floor_knob(Setting::Text(value)) == Ok::<AuditFloor, Seq<char>>(
            AuditFloor::Standard,
        ) <==> text::lower(value) == "standard"@,
        policy::audit_floor_knob(Setting::Text(value)) is Err <==> text::lower(value)
            != "minimal"@ && text::lower(value) != "standard"@,
{
    reveal_strlit("minimal");
    reveal_strlit("standard");
    assert("minimal"@.len() == 7);
    assert("standard"@.len() == 8);
}

/// A policy's audit floor is the one that was asked for.
pub proof fn the_audit_floor_is_configured(
    policy: ResolvedServerPolicy,
    env: Environment,
    defaults: PolicyDefaults,
)
    requires
        policy::has_operations(policy, env, defaults),
    ensures
        env.audit_floor@ is Unset ==> policy.audit_floor == AuditFloor::Minimal,
        env.audit_floor matches Variable::Text(value) ==> (policy.audit_floor
            == AuditFloor::Standard <==> text::lower(value@) == "standard"@),
{
    if env.audit_floor is Text {
        the_audit_floor_is_one_of_two(env.audit_floor->Text_0@);
    }
}

/// The run limits are in order: between one and 65536 active runs, at least as
/// many tracked ones, and at most a million of those; a limit that is set is
/// not zero; and no directory, registry or token that is given is empty.
pub proof fn a_configuration_is_accepted_in_order(config: ServerConfig)
    ensures
        policy::config_refusal(config) is None <==> {
            &&& 1 <= config.max_active_runs <= 65536
            &&& config.max_active_runs <= config.max_tracked_runs <= 1000000
            &&& config.max_request_bytes != Some(0usize)
            &&& config.max_artifact_bytes != Some(0u64)
            &&& config.max_artifact_entries != Some(0usize)
            &&& config.max_asset_bytes != Some(0usize)
            &&& config.generators_dir@.len() > 0
            &&& config.runs_dir@.len() > 0
            &&& (forall|i: int|
                0 <= i < config.extra_generators_dirs@.len() ==> (
                #[trigger] config.extra_generators_dirs@[i])@.len() > 0)
            &&& (config.providers_path is Some ==> config.providers_path->0@.len() > 0)
            &&& (config.api_token is Some ==> config.api_token->0@.len() > 0)
        },
{
    let dirs = config.extra_generators_dirs@;
    if !policy::has_empty(dirs) {
        assert forall|i: int| 0 <= i < dirs.len() implies (#[trigger] dirs[i])@.len() > 0 by {
        }
    } else {
        let i = choose|i: int| 0 <= i < dirs.len() && (#[trigger] dirs[i])@.len() == 0;
        assert(dirs[i]@.len() == 0);
    }
}

/// An out-of-range number in any variable keeps the server from booting.
pub proof fn a_number_out_of_range_is_refused(
    config: ServerConfig,
    env: Environment,
    defaults: PolicyDefaults,
    cors_enabled: bool,
    n: nat,
)
    requires
        ({
            let text = Setting::Text(text::decimal(n));
            ||| env.idempotency_ttl_secs@ == text && (n == 0 || n > u64::MAX)
            ||| env.idempotency_max_entries@ == text && (n == 0 || n > usize::MAX)
            ||| env.live_event_channel_capacity@ == text && !(
            defaults.live_event_channel_capacity.min <= n
                <= defaults.live_event_channel_capacity.max)
            ||| env.journal_poll_interval_ms@ == text && !(defaults.journal_poll_interval_millis.min
                <= n <= defaults.journal_poll_interval_millis.max)
            ||| env.max_directory_scan_entries@ == text && !(defaults.max_directory_scan_entries.min
                <= n <= defaults.max_directory_scan_entries.max)
            ||| env.shared_rescan_secs@ == text && !(defaults.store_rescan_min_secs <= n
                <= defaults.store_rescan_max_secs)
            ||| env.queued_resumer_secs@ == text && !(defaults.store_rescan_min_secs <= n
                <= defaults.store_rescan_max_secs)
            ||| env.shutdown_drain_secs@ == text && !(defaults.shutdown_phase_min_secs <= n
                <= defaults.shutdown_phase_max_secs)
            ||| env.shutdown_settle_secs@ == text && !(defaults.shutdown_phase_min_secs <= n
                <= defaults.shutdown_phase_max_secs)
            ||| env.max_parallel_steps@ == text && n == 0
            ||| env.gc_keep@ == text && n == 0
            ||| env.gc_keep_failed@ == text && n == 0
            ||| env.gc_interval_secs@ == text && n < 60
        }),
    ensures
        policy::policy_refusal(config, env, defaults, cors_enabled) is Some,
{
    super::texts::numbers_are_read_back(n, u64::MAX as nat, Seq::empty());
    super::texts::numbers_are_read_back(n, usize::MAX as nat, Seq::empty());
}

/// A settlement that is shorter than the drain keeps the server from booting,
/// and so do a budget of no steps, a switch that cannot be read and an origin
/// list that this build cannot serve.
pub proof fn a_contradiction_is_refused(
    config: ServerConfig,
    env: Environment,
    defaults: PolicyDefaults,
    cors_enabled: bool,
    drain: nat,
    settle: nat,
)
    requires
        ({
            ||| env.shutdown_drain_secs@ == Setting::Text(text::decimal(drain))
                && env.shutdown_settle_secs@ == Setting::Text(text::decimal(settle)) && settle
                < drain
            ||| env.shutdown_drain_secs@ == Setting::Text(text::decimal(drain))
                && env.shutdown_settle_secs@ is Unset && drain > 150
            ||| config.max_total_steps == Some(0usize)
            ||| env.auto_gc is Err
            ||| env.preemption is Err
            ||| !cors_enabled && config.cors_origins@.len() > 0
            ||| cors::allowlist(config.cors_origins.deep_view()) is Err
        }),
    ensures
        policy::policy_refusal(config, env, defaults, cors_enabled) is Some,
{
    super::texts::numbers_are_read_back(drain, u64::MAX as nat, Seq::empty());
    super::texts::numbers_are_read_back(settle, u64::MAX as nat, Seq::empty());
}

/// A server boots where each number is unset or in range, the settlement is not
/// shorter than the drain, each feature is configured as it may be, and the
/// configuration is in order.
pub proof fn a_sound_configuration_boots(
    config: ServerConfig,
    env: Environment,
    defaults: PolicyDefaults,
    cors_enabled: bool,
    drain: nat,
    settle: nat,
)
    requires
        is_within(env.idempotency_ttl_secs@, 1, u64::MAX as nat),
        is_within(env.idempotency_max_entries@, 1, usize::MAX as nat),
        is_within(
            env.live_event_channel_capacity@,
            defaults.live_event_channel_capacity.min as nat,
            defaults.live_event_channel_capacity.max as nat,
        ),
        is_within(
            env.journal_poll_interval_ms@,
            defaults.journal_poll_interval_millis.min as nat,
            defaults.journal_poll_interval_millis.max as nat,
        ),
        is_within(
            env.max_directory_scan_entries@,
            defaults.max_directory_scan_entries.min as nat,
            defaults.max_directory_scan_entries.max as nat,
        ),
        defaults.live_event_channel_capacity.default <= usize::MAX,
        defaults.live_event_channel_capacity.max <= usize::MAX,
        defaults.max_directory_scan_entries.default <= usize::MAX,
        defaults.max_directory_scan_entries.max <= usize::MAX,
        is_within(
            env.shared_rescan_secs@,
            defaults.store_rescan_min_secs as nat,
            defaults.store_rescan_max_secs as nat,
        ),
        is_within(
            env.queued_resumer_secs@,
            defaults.store_rescan_min_secs as nat,
            defaults.store_rescan_max_secs as nat,
        ),
        (env.shutdown_drain_secs@ is Unset && drain == 30) || (env.shutdown_drain_secs@
            == Setting::Text(text::decimal(drain)) && defaults.shutdown_phase_min_secs <= drain
            <= defaults.shutdown_phase_max_secs),
        (env.shutdown_settle_secs@ is Unset && settle == 150) || (env.shutdown_settle_secs@
            == Setting::Text(text::decimal(settle)) && defaults.shutdown_phase_min_secs <= settle
            <= defaults.shutdown_phase_max_secs),
        drain <= settle,
        is_within(env.max_parallel_steps@, 1, usize::MAX as nat),
        is_within(env.gc_keep@, 1, usize::MAX as nat),
        is_within(env.gc_keep_failed@, 1, usize::MAX as nat),
        is_within(env.gc_interval_secs@, 60, u64::MAX as nat),
        policy::audit_floor_knob(env.audit_floor@) is Ok,
        env.auto_gc is Ok,
        env.preemption is Ok,
        rate_limit::rate_limit_policy(
            env.rate_limit_rps@,
            env.rate_limit_burst@,
            env.rate_limit_identity_header@,
        ) is Ok,
        otlp::otlp_config(env.otlp_endpoint@, env.otlp_interval_ms@) is Ok,
        config.max_total_steps != Some(0usize),
        cors_enabled || config.cors_origins@.len() == 0,
        cors::allowlist(config.cors_origins.deep_view()) is Ok,
        policy::config_refusal(config) is None,
    ensures
        policy::policy_refusal(config, env, defaults, cors_enabled) is None,
{
    a_number_in_range_is_read(env.idempotency_ttl_secs@, 1, u64::MAX as nat, u64::MAX as nat);
    a_number_in_range_is_read(
        env.idempotency_max_entries@,
        1,
        usize::MAX as nat,
        usize::MAX as nat,
    );
    a_number_in_range_is_read(
        env.live_event_channel_capacity@,
        defaults.live_event_channel_capacity.min as nat,
        defaults.live_event_channel_capacity.max as nat,
        u64::MAX as nat,
    );
    a_number_in_range_is_read(
        env.journal_poll_interval_ms@,
        defaults.journal_poll_interval_millis.min as nat,
        defaults.journal_poll_interval_millis.max as nat,
        u64::MAX as nat,
    );
    a_number_in_range_is_read(
        env.max_directory_scan_entries@,
        defaults.max_directory_scan_entries.min as nat,
        defaults.max_directory_scan_entries.max as nat,
        u64::MAX as nat,
    );
    a_number_in_range_is_read(
        env.shared_rescan_secs@,
        defaults.store_rescan_min_secs as nat,
        defaults.store_rescan_max_secs as nat,
        u64::MAX as nat,
    );
    a_number_in_range_is_read(
        env.queued_resumer_secs@,
        defaults.store_rescan_min_secs as nat,
        defaults.store_rescan_max_secs as nat,
        u64::MAX as nat,
    );
    super::texts::numbers_are_read_back(drain, u64::MAX as nat, Seq::empty());
    super::texts::numbers_are_read_back(settle, u64::MAX as nat, Seq::empty());
    a_number_in_range_is_read(env.max_parallel_steps@, 1, usize::MAX as nat, usize::MAX as nat);
    a_number_in_range_is_read(env.gc_keep@, 1, usize::MAX as nat, usize::MAX as nat);
    a_number_in_range_is_read(env.gc_keep_failed@, 1, usize::MAX as nat, usize::MAX as nat);
    a_number_in_range_is_read(env.gc_interval_secs@, 60, u64::MAX as nat, u64::MAX as nat);
}

proof fn a_number_in_range_is_read(setting: Setting, least: nat, most: nat, max: nat)
    requires
        is_within(setting, least, most),
        most <= max,
    ensures
        setting matches Setting::Text(value) ==> (text::unsigned_value(value, max) matches Some(n)
            && least <= n <= most),
        setting !is NotText,
{
    if setting !is Unset {
        let n = choose|n: nat|
            setting == Setting::Text(#[trigger] text::decimal(n)) && least <= n <= most;
        super::texts::numbers_are_read_back(n, max, Seq::empty());
    }
}

/// The bounds that no variable changes.
pub proof fn the_fixed_bounds()
    ensures
        crate::idempotency::durable::PENDING_TTL_SECS == 60,
        crate::idempotency::durable::MAX_IDEMPOTENCY_FILE_BYTES == 65536,
        crate::idempotency::files::OPEN_ROUNDS == 8,
        crate::idempotency::files::STAGING_ATTEMPTS == 3,
        crate::idempotency::owner::PEER_WAIT_SECS == 30,
        crate::idempotency::owner::PEER_PAUSE_MILLIS == 100,
        crate::exporter::MAX_COMPLETED_RUNS == 4096,
        crate::exporter::EXPORT_TIMEOUT_SECS == 30,
        crate::exporter::MAX_REPLY_BYTES == 65536,
        crate::artifact::READ_CHUNK_BYTES == 65536,
        crate::shutdown::TASK_GRACE_SECS == 5,
        crate::policy::TOTAL_SHUTDOWN_BOUND_SECS == crate::policy::DRAIN_TIMEOUT_SECS
            + crate::policy::SHUTDOWN_DEADLINE_SECS,
        crate::policy::DRAIN_TIMEOUT_SECS == 30,
        crate::policy::SHUTDOWN_DEADLINE_SECS == 150,
{
}

/// The run service gets the policy's own values, each in its own place.
pub proof fn the_service_gets_the_policy(policy: ResolvedServerPolicy)
    ensures
        policy.deployment().max_total_steps == policy.max_total_steps,
        policy.deployment().preemption_enabled == policy.preemption_enabled,
        policy.deployment().audit_floor == policy.audit_floor,
        policy.deployment().gc_keep == policy.gc_keep,
        policy.deployment().gc_keep_failed == policy.gc_keep_failed,
        policy.deployment().gc_interval_secs == policy.gc_interval_secs,
        policy.deployment().max_parallel_steps == policy.max_parallel_steps,
        policy.deployment().live_event_channel_capacity == policy.live_event_channel_capacity,
        policy.deployment().journal_poll_interval_millis == policy.journal_poll_interval_millis,
        policy.deployment().max_directory_scan_entries == policy.max_directory_scan_entries,
        policy.deployment().shared_store_rescan_secs == policy.shared_store_rescan_secs,
        policy.deployment().queued_resumer_secs == policy.queued_resumer_secs,
{
}

} // verus!
