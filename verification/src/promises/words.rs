//! What a refusal says: the cause, and the value that was refused.
use vstd::prelude::*;
use crate::artifact;
use crate::artifact::Artifact;
use crate::auth;
use crate::cors;
use crate::environment::Setting;
use crate::etag;
use crate::header;
use crate::idempotency::config;
use crate::idempotency::durable;
use crate::idempotency::durable::{Commit, PendingReadModel, StoreRefusal, StoreStepModel};
use crate::idempotency::files;
use crate::idempotency::owner;
use crate::idempotency::record::{FileModel, KeyFiles, PendingModel, ReadyModel};
use crate::listing;
use crate::listing::RunItem;
use crate::otlp;
use crate::policy;
use crate::policy::{AuditFloor, Environment, PolicyDefaults, ServerConfig};
use crate::rate_limit;
use crate::spans;
use crate::text;

verus! {

/// A commit that may not publish is told which of its marks differs from the
/// claim's, the owner first, and a commit that comes too late is told so.
pub proof fn a_refused_commit_is_told_why(
    commit: Commit,
    claim: PendingModel,
    now: u64,
    ttl_secs: u64,
)
    requires
        claim.key == commit.key,
    ensures
        ({
            let step = durable::store(
                commit,
                KeyFiles { ready: FileModel::Absent, pending: FileModel::Present(claim) },
                Some(now),
                ttl_secs,
            ).step;
            &&& (now - claim.created >= 60 ==> step == Err::<StoreStepModel, StoreRefusal>(
                StoreRefusal::Storage("idempotency claim expired; commit refused"@),
            ))
            &&& (now - claim.created < 60 && claim.owner != commit.owner ==> step == Err::<
                StoreStepModel,
                StoreRefusal,
            >(
                StoreRefusal::Storage(
                    "idempotency claim is owned by a different claim; commit refused"@,
                ),
            ))
            &&& (now - claim.created < 60 && claim.owner == commit.owner && claim.generation
                != commit.generation ==> step == Err::<StoreStepModel, StoreRefusal>(
                StoreRefusal::Storage(
                    "idempotency claim superseded by generation "@ + text::decimal(
                        claim.generation as nat,
                    ) + "; commit refused"@,
                ),
            ))
            &&& (now - claim.created < 60 && claim.owner == commit.owner && claim.generation
                == commit.generation && claim.digest != commit.digest ==> step == Err::<
                StoreStepModel,
                StoreRefusal,
            >(
                StoreRefusal::Storage(
                    "idempotency claim was admitted for different content; commit refused"@,
                ),
            ))
            &&& (now - claim.created < 60 && claim.owner == commit.owner && claim.generation
                == commit.generation && claim.digest == commit.digest && claim.run_id != Some(
                commit.run_id,
            ) ==> step == Err::<StoreStepModel, StoreRefusal>(
                StoreRefusal::Storage(
                    "idempotency claim has no matching reserved run; commit refused"@,
                ),
            ))
        }),
        durable::store(
            commit,
            KeyFiles { ready: FileModel::Absent, pending: FileModel::Absent },
            Some(now),
            ttl_secs,
        ).step == Err::<StoreStepModel, StoreRefusal>(
            StoreRefusal::Storage(
                "idempotency claim is absent; refusing to publish a new Ready record"@,
            ),
        ),
{
}

/// A claim that cannot be used is reported with its key and the damage.
pub proof fn a_damaged_claim_is_reported(
    key: Seq<char>,
    claim: PendingModel,
    error: Seq<char>,
    now: u64,
)
    ensures
        durable::pending_read(key, FileModel::Unreadable(error), Some(now))
            == PendingReadModel::Unusable(
            "pending claim for key `"@ + key + "` is unreadable: "@ + error,
        ),
        durable::pending_read(key, FileModel::Corrupt(error), Some(now))
            == PendingReadModel::Unusable(
            "corrupt pending claim for key `"@ + key + "` ("@ + error
                + "); operator action required"@,
        ),
        claim.key != key ==> durable::pending_read(key, FileModel::Present(claim), Some(now))
            == PendingReadModel::Unusable(
            "pending claim at key `"@ + key
                + "` belongs to a different key; operator action required"@,
        ),
        claim.key == key ==> durable::pending_read(key, FileModel::Present(claim), None)
            == PendingReadModel::Unusable(
            "system clock is before the Unix epoch; refusing idempotency decision"@,
        ),
        owner::owner_check(
            key,
            claim.owner,
            claim.generation,
            claim.digest,
            FileModel::Unreadable(error),
            Some(now),
        ) == Err::<owner::OwnerCheck, Seq<char>>(
            "idempotency claim for key `"@ + key + "` is unreadable: "@ + error,
        ),
        owner::release(key, claim.owner, claim.generation, FileModel::Unreadable(error)) == Err::<
            bool,
            Seq<char>,
        >("idempotency claim for key `"@ + key + "` is unreadable: "@ + error),
        owner::release(key, claim.owner, claim.generation, FileModel::Corrupt(error)) == Err::<
            bool,
            Seq<char>,
        >(
            "idempotency claim for key `"@ + key + "` is corrupt ("@ + error
                + "); operator action required"@,
        ),
        claim.key != key ==> owner::release(
            key,
            claim.owner,
            claim.generation,
            FileModel::Present(claim),
        ) == Err::<bool, Seq<char>>(
            "idempotency claim at key `"@ + key
                + "` belongs to a different key; refusing release; operator action required"@,
        ),
{
}

/// A mapping that cannot be used is reported with the damage.
pub proof fn a_damaged_mapping_is_reported(
    key: Seq<char>,
    mapping: ReadyModel,
    error: Seq<char>,
    now: u64,
    ttl_secs: u64,
)
    ensures
        durable::reaped_ready(key, FileModel::Unreadable(error), Some(now), ttl_secs) == Err::<
            durable::ReapedModel,
            Seq<char>,
        >(error),
        durable::reaped_ready(key, FileModel::Corrupt(error), Some(now), ttl_secs) == Err::<
            durable::ReapedModel,
            Seq<char>,
        >(error),
        durable::reaped_ready(key, FileModel::Empty, Some(now), ttl_secs) == Err::<
            durable::ReapedModel,
            Seq<char>,
        >("idempotency record is empty; writer may be in progress"@),
        mapping.key != key ==> durable::reaped_ready(
            key,
            FileModel::Present(mapping),
            Some(now),
            ttl_secs,
        ) == Err::<durable::ReapedModel, Seq<char>>("idempotency record key mismatch"@),
        mapping.key == key ==> durable::reaped_ready(
            key,
            FileModel::Present(mapping),
            None,
            ttl_secs,
        ) == Err::<durable::ReapedModel, Seq<char>>(
            "system clock is before the Unix epoch; refusing idempotency decision"@,
        ),
{
}

/// A path that is not opened is named with the first thing that is wrong with
/// it.
pub proof fn a_refused_path_is_named(path: Seq<char>, parent: Seq<char>, name: Seq<char>, read: bool)
    ensures
        files::open_refusal(path, Some(parent), Some(name), false, false) == Some(
            "idempotency file `"@ + path + "` "@ + "requires read and/or write"@,
        ),
        files::open_refusal(path, None, Some(name), read, true) == Some(
            "idempotency file `"@ + path + "` "@ + "has no parent"@,
        ),
        files::open_refusal(path, Some(parent), None, read, true) == Some(
            "idempotency file `"@ + path + "` "@ + "has no file name"@,
        ),
        name.len() == 0 || name == "."@ || name == ".."@ ==> files::open_refusal(
            path,
            Some(parent),
            Some(name),
            read,
            true,
        ) == Some("idempotency file `"@ + path + "` "@ + "has an unsafe file name"@),
        name.len() > 0 && name != "."@ && name != ".."@ && (parent.contains('\0') || name.contains(
            '\0',
        )) ==> files::open_refusal(path, Some(parent), Some(name), read, true) == Some(
            "idempotency file `"@ + path + "` "@ + "contains a NUL byte"@,
        ),
        files::oversize(path) == "idempotency file `"@ + path + "` exceeds "@ + text::decimal(65536)
            + " bytes"@,
{
}

/// An artifact of the wrong size is reported with the recorded size and the
/// actual one, in this order; one of the wrong content is named.
pub proof fn a_wrong_artifact_is_named(artifact: Artifact, actual: u64)
    ensures
        artifact::size_detail(artifact, actual) == "artifact `"@ + artifact.path@
            + "` bytes mismatch: manifest="@ + text::decimal(artifact.bytes as nat) + ", actual="@
            + text::decimal(actual as nat),
        artifact::content_detail(artifact) == "artifact `"@ + artifact.path@
            + "` content mismatch: manifest sha256 does not match file"@,
{
}

/// A record's timestamp is quoted where it cannot be read or lies before 1970.
pub proof fn a_wrong_timestamp_is_quoted(timestamp: Seq<char>, detail: Seq<char>, seconds: i64, nanos:
    u32)
    ensures
        spans::unix_nanos(timestamp, Err(detail)) == Err::<nat, Seq<char>>(
            "invalid record timestamp `"@ + timestamp + "`: "@ + detail,
        ),
        seconds < 0 ==> spans::unix_nanos(timestamp, Ok((seconds, nanos))) == Err::<nat, Seq<char>>(
            "record timestamp `"@ + timestamp + "` predates the Unix epoch"@,
        ),
{
}

/// A run whose start cannot be read is named.
pub proof fn a_run_without_a_start_is_named(items: Seq<RunItem>, item: RunItem)
    ensures
        listing::start_instants(items) is Ok && spans::rfc3339(item.started_at@) is Err
            ==> listing::start_instants(items.push(item)) == Err::<
            Seq<listing::Instant>,
            Seq<char>,
        >(
            "run `"@ + item.run_id@ + "` has invalid started_at: "@ + spans::rfc3339(
                item.started_at@,
            )->Err_0,
        ),
{
    assert(items.push(item).drop_last() =~= items);
}

/// A precondition that is not readable is told apart from one that is not a
/// list of tags.
pub proof fn a_refused_precondition_is_told_why(bytes: Seq<u8>)
    ensures
        !super::access::is_readable(bytes) ==> etag::condition_of(Some(bytes)) == Err::<
            etag::Condition,
            Seq<char>,
        >("If-None-Match must be valid ASCII"@),
        super::access::is_readable(bytes) ==> (etag::condition_of(Some(bytes)) matches Err(detail)
            ==> detail == "If-None-Match must be `*` or a comma-separated entity-tag list"@),
{
    super::access::readable_bytes(bytes);
}

/// An authorisation that is refused is told whether the listener, the list of
/// origins, the header or the origin is at fault.
pub proof fn a_refused_authorisation_is_told_why(
    allowed: Seq<Seq<char>>,
    origin: Option<Seq<u8>>,
    bytes: Seq<u8>,
)
    ensures
        auth::oauth_refusal(false, allowed, origin) == Some(
            "MCP OAuth is available only on a loopback listener"@,
        ),
        allowed.len() == 0 ==> auth::oauth_refusal(true, allowed, origin) == Some(
            "MCP OAuth has no allowed loopback origins"@,
        ),
        allowed.len() > 0 && !super::access::is_readable(bytes) ==> auth::oauth_refusal(
            true,
            allowed,
            Some(bytes),
        ) == Some("request Origin is invalid"@),
        allowed.len() > 0 && super::access::is_readable(bytes) && !allowed.contains(
            bytes.map_values(|b: u8| b as char),
        ) ==> auth::oauth_refusal(true, allowed, Some(bytes)) == Some(
            "cross-origin MCP authorization is not allowed"@,
        ),
{
    super::access::readable_bytes(bytes);
    assert(header::ascii_text(bytes) == bytes.map_values(|b: u8| b as char));
}

/// An origin that is refused is quoted, with the first thing that is wrong with
/// it: the header, the scheme, user information, or a path.
pub proof fn a_refused_origin_is_quoted(origin: Seq<char>, scheme: Seq<char>, rest: Seq<char>)
    ensures
        !header::is_header_value(origin) ==> cors::origin_refusal(origin) == Some(
            "invalid CORS origin `"@ + origin + "`: "@ + "failed to parse header value"@,
        ),
        header::is_header_value(origin) && !"http://"@.is_prefix_of(text::lower(origin))
            && !"https://"@.is_prefix_of(text::lower(origin)) ==> cors::origin_refusal(origin)
            == Some(
            "invalid CORS origin `"@ + origin + "`: "@ + "must start with http:// or https://"@,
        ),
        header::is_header_value(origin) && super::access::is_web_scheme(scheme) && text::lower(
            origin,
        ) == scheme + rest && rest.contains('@') ==> cors::origin_refusal(origin) == Some(
            "invalid CORS origin `"@ + origin + "`: "@ + "userinfo is not allowed"@,
        ),
        header::is_header_value(origin) && super::access::is_web_scheme(scheme) && text::lower(
            origin,
        ) == scheme + rest && !rest.contains('@') && (rest.len() == 0 || rest.contains('/')
            || rest.contains('?') || rest.contains('#') || rest.contains(' '))
            ==> cors::origin_refusal(origin) == Some(
            "invalid CORS origin `"@ + origin + "`: "@
                + "must be scheme + host[:port] without path"@,
        ),
{
    if super::access::is_web_scheme(scheme) && text::lower(origin) == scheme + rest {
        super::access::schemes_are_cut_off(text::lower(origin), scheme, rest);
    }
}

/// A variable that is refused is named, with its value and what would be taken.
pub proof fn a_refused_variable_is_named(
    name: Seq<char>,
    value: Seq<char>,
    default: u64,
    min: u64,
    max: u64,
)
    requires
        text::unsigned_value(value, u64::MAX as nat) is None,
        text::unsigned_value(value, u32::MAX as nat) is None,
    ensures
        policy::bounded_knob(name, Setting::Text(value), default, min, max) == Err::<
            nat,
            Seq<char>,
        >(
            "invalid "@ + name + " `"@ + value + "`: must be an integer between "@ + text::decimal(
                min as nat,
            ) + " and "@ + text::decimal(max as nat),
        ),
        policy::at_least_knob(name, Setting::Text(value), default as nat, min as nat, u64::MAX as nat)
            == Err::<nat, Seq<char>>(
            "invalid "@ + name + " `"@ + value + "`: must be an integer of at least "@
                + text::decimal(min as nat),
        ),
        config::positive_knob(name, Setting::Text(value), default as nat, u64::MAX as nat) == Err::<
            nat,
            Seq<char>,
        >("invalid "@ + name + " `"@ + value + "`: must be a positive integer"@),
        rate_limit::positive_setting(name, Setting::Text(value), default as nat) == Err::<
            nat,
            Seq<char>,
        >("invalid "@ + name + " `"@ + value + "`: must be an integer of at least 1"@),
        policy::bounded_knob(name, Setting::NotText, default, min, max) == Err::<nat, Seq<char>>(
            "invalid "@ + name + ": must be UTF-8 text"@,
        ),
{
}

/// A variable that is not text is named in its refusal, each by its own name.
pub proof fn each_variable_has_its_own_name(
    env: Environment,
    defaults: PolicyDefaults,
    value: Seq<char>,
)
    ensures
        env.idempotency_ttl_secs@ is NotText ==> policy::ttl_knob(env, defaults) == Err::<nat, Seq<char>>(
            "invalid "@ + "QCG_IDEMPOTENCY_TTL_SECS"@ + ": must be UTF-8 text"@,
        ),
        env.idempotency_max_entries@ is NotText ==> policy::max_entries_knob(env, defaults) == Err::<nat, Seq<char>>(
            "invalid "@ + "QCG_IDEMPOTENCY_MAX_ENTRIES"@ + ": must be UTF-8 text"@,
        ),
        env.live_event_channel_capacity@ is NotText ==> policy::channel_knob(env, defaults) == Err::<nat, Seq<char>>(
            "invalid "@ + "QCG_LIVE_EVENT_CHANNEL_CAPACITY"@ + ": must be UTF-8 text"@,
        ),
        env.journal_poll_interval_ms@ is NotText ==> policy::poll_knob(env, defaults) == Err::<nat, Seq<char>>(
            "invalid "@ + "QCG_JOURNAL_POLL_INTERVAL_MS"@ + ": must be UTF-8 text"@,
        ),
        env.max_directory_scan_entries@ is NotText ==> policy::scan_knob(env, defaults) == Err::<nat, Seq<char>>(
            "invalid "@ + "QCG_MAX_DIRECTORY_SCAN_ENTRIES"@ + ": must be UTF-8 text"@,
        ),
        env.shared_rescan_secs@ is NotText ==> policy::rescan_knob(env, defaults) == Err::<nat, Seq<char>>(
            "invalid "@ + "QCG_SHARED_RESCAN_SECS"@ + ": must be UTF-8 text"@,
        ),
        env.queued_resumer_secs@ is NotText ==> policy::resumer_knob(env, defaults) == Err::<nat, Seq<char>>(
            "invalid "@ + "QCG_QUEUED_RESUMER_SECS"@ + ": must be UTF-8 text"@,
        ),
        env.shutdown_drain_secs@ is NotText ==> policy::drain_knob(env, defaults) == Err::<nat, Seq<char>>(
            "invalid "@ + "QCG_SHUTDOWN_DRAIN_SECS"@ + ": must be UTF-8 text"@,
        ),
        env.shutdown_settle_secs@ is NotText ==> policy::settle_knob(env, defaults) == Err::<nat, Seq<char>>(
            "invalid "@ + "QCG_SHUTDOWN_SETTLE_SECS"@ + ": must be UTF-8 text"@,
        ),
        env.max_parallel_steps@ is NotText ==> policy::parallel_knob(env) == Err::<nat, Seq<char>>(
            "invalid "@ + "QCG_MAX_PARALLEL_STEPS"@ + ": must be UTF-8 text"@,
        ),
        env.gc_keep@ is NotText ==> policy::keep_knob(env, defaults) == Err::<nat, Seq<char>>(
            "invalid "@ + "QCG_GC_KEEP"@ + ": must be UTF-8 text"@,
        ),
        env.gc_keep_failed@ is NotText ==> policy::keep_failed_knob(env, defaults) == Err::<nat, Seq<char>>(
            "invalid "@ + "QCG_GC_KEEP_FAILED"@ + ": must be UTF-8 text"@,
        ),
        env.gc_interval_secs@ is NotText ==> policy::gc_interval_knob(env, defaults) == Err::<nat, Seq<char>>(
            "invalid "@ + "QCG_GC_INTERVAL_SECS"@ + ": must be UTF-8 text"@,
        ),
        policy::audit_floor_knob(Setting::NotText) == Err::<AuditFloor, Seq<char>>(
            "invalid "@ + "QCG_AUDIT_FLOOR"@ + ": must be UTF-8 text"@,
        ),
        text::lower(value) != "minimal"@ && text::lower(value) != "standard"@
            ==> policy::audit_floor_knob(Setting::Text(value)) == Err::<AuditFloor, Seq<char>>(
            "invalid QCG_AUDIT_FLOOR `"@ + value + "`: must be `minimal` or `standard`"@,
        ),
        rate_limit::rate_limit_policy(Setting::NotText, Setting::Unset, Setting::Unset) == Err::<
            Option<rate_limit::PolicyModel>,
            Seq<char>,
        >("invalid "@ + "QCG_RATE_LIMIT_RPS"@ + ": must be UTF-8 text"@),
        rate_limit::identity_setting(Setting::NotText) == Err::<Option<Seq<char>>, Seq<char>>(
            "invalid "@ + "QCG_RATE_LIMIT_IDENTITY_HEADER"@ + ": must be UTF-8 text"@,
        ),
        rate_limit::identity_header(value) is None ==> rate_limit::identity_setting(
            Setting::Text(value),
        ) == Err::<Option<Seq<char>>, Seq<char>>(
            "invalid QCG_RATE_LIMIT_IDENTITY_HEADER `"@ + value
                + "`: must be a non-authorization header name"@,
        ),
        rate_limit::rate_limit_policy(Setting::Unset, Setting::NotText, Setting::Unset) == Err::<
            Option<rate_limit::PolicyModel>,
            Seq<char>,
        >("QCG_RATE_LIMIT_BURST is set without QCG_RATE_LIMIT_RPS; set both or neither"@),
        otlp::otlp_config(Setting::NotText, Setting::Unset) == Err::<
            Option<otlp::OtlpModel>,
            Seq<char>,
        >("invalid "@ + "QCG_OTLP_ENDPOINT"@ + ": must be UTF-8 text"@),
        otlp::otlp_config(Setting::Unset, Setting::NotText) == Err::<
            Option<otlp::OtlpModel>,
            Seq<char>,
        >("QCG_OTLP_INTERVAL_MS is set without QCG_OTLP_ENDPOINT; set both or neither"@),
        auth::loopback_detail() == "MCP OAuth is available only on a loopback listener"@,
        listing::cursor_detail() == "cursor must have form `started_at|run_id`"@,
        cors::cors_disabled_detail()
            == "CORS origins are configured, but this build disables the `server-cors` cargo feature"@,
{
}

/// An endpoint that is refused is quoted, with what is wrong with it.
pub proof fn a_refused_endpoint_is_quoted(
    value: Seq<char>,
    detail: Seq<char>,
    scheme: Seq<char>,
    has_host: bool,
)
    ensures
        otlp::endpoint_refusal(value, Err(detail)) == Some(
            "invalid QCG_OTLP_ENDPOINT `"@ + value + "`: "@ + detail,
        ),
        scheme != "http"@ && scheme != "https"@ ==> otlp::endpoint_refusal(
            value,
            Ok((scheme, has_host)),
        ) == Some(
            "invalid QCG_OTLP_ENDPOINT `"@ + value + "`: "@ + "scheme must be http or https"@,
        ),
        (scheme == "http"@ || scheme == "https"@) && !has_host ==> otlp::endpoint_refusal(
            value,
            Ok((scheme, has_host)),
        ) == Some("invalid QCG_OTLP_ENDPOINT `"@ + value + "`: "@ + "a host is required"@),
        (scheme == "http"@ || scheme == "https"@) && has_host ==> otlp::endpoint_refusal(
            value,
            Ok((scheme, has_host)),
        ) is None,
{
}

/// A configuration that is refused is told which of its limits is at fault, the
/// run limits first.
pub proof fn a_refused_configuration_is_told_why(config: ServerConfig)
    ensures
        config.max_active_runs == 0 ==> policy::config_refusal(config) == Some(
            "max_active_runs must be greater than zero"@,
        ),
        config.max_active_runs > 65536 ==> policy::config_refusal(config) == Some(
            "max_active_runs must be at most 65536"@,
        ),
        1 <= config.max_active_runs <= 65536 && config.max_tracked_runs < config.max_active_runs
            ==> policy::config_refusal(config) == Some(
            "max_tracked_runs must be at least max_active_runs ("@ + text::decimal(
                config.max_active_runs as nat,
            ) + ")"@,
        ),
        1 <= config.max_active_runs <= 65536 && config.max_tracked_runs > 1000000
            ==> policy::config_refusal(config) == Some("max_tracked_runs must be at most 1000000"@),
        1 <= config.max_active_runs <= 65536 && config.max_active_runs <= config.max_tracked_runs
            <= 1000000 && config.max_request_bytes == Some(0usize) ==> policy::config_refusal(
            config,
        ) == Some("max_request_bytes must be greater than zero when set"@),
        1 <= config.max_active_runs <= 65536 && config.max_active_runs <= config.max_tracked_runs
            <= 1000000 && config.max_request_bytes != Some(0usize) && config.max_artifact_bytes
            == Some(0u64) ==> policy::config_refusal(config) == Some(
            "max_artifact_bytes must be greater than zero when set"@,
        ),
{
}

} // verus!
