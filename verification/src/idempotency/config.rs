//! Boot-time limits of idempotency, and the clock that its decisions read.
use vstd::prelude::*;
use vstd::string::*;
use crate::environment;
use crate::environment::{Setting, Variable};
use crate::text;
use super::durable;

verus! {

/// The refusal of a knob that must be a positive integer.
pub open spec fn positive_refusal(name: Seq<char>, value: Seq<char>) -> Seq<char> {
    "invalid "@ + name + " `"@ + value + "`: must be a positive integer"@
}

fn refuse_positive(name: &str, value: &str) -> (r: String)
    ensures
        r@ == positive_refusal(name@, value@),
{
    let mut detail = "invalid ".to_owned();
    detail.append(name);
    detail.append(" `");
    detail.append(value);
    detail.append("`: must be a positive integer");
    detail
}

/// A knob that is unset takes its default; a value must spell a positive
/// integer that `max` admits.
pub open spec fn positive_knob(
    name: Seq<char>,
    value: Setting,
    default: nat,
    max: nat,
) -> Result<nat, Seq<char>> {
    match value {
        Setting::Unset => Ok(default),
        Setting::NotText => Err(environment::not_text_refusal(name)),
        Setting::Text(value) => match text::unsigned_value(value, max) {
            Some(n) => if n > 0 {
                Ok(n)
            } else {
                Err(positive_refusal(name, value))
            },
            None => Err(positive_refusal(name, value)),
        },
    }
}

/// The capacity of the in-memory table: `QCG_IDEMPOTENCY_MAX_ENTRIES`, or the
/// default where it is unset.
pub fn effective_idempotency_max_entries(value: &Variable, default: usize) -> (r: Result<
    usize,
    String,
>)
    ensures
        match r {
            Ok(n) => positive_knob(
                "QCG_IDEMPOTENCY_MAX_ENTRIES"@,
                value@,
                default as nat,
                usize::MAX as nat,
            ) == Ok::<_, Seq<char>>(n as nat),
            Err(detail) => positive_knob(
                "QCG_IDEMPOTENCY_MAX_ENTRIES"@,
                value@,
                default as nat,
                usize::MAX as nat,
            ) == Err::<nat, _>(detail@),
        },
{
    match value {
        Variable::Unset => Ok(default),
        Variable::NotText => Err(environment::refuse_not_text("QCG_IDEMPOTENCY_MAX_ENTRIES")),
        Variable::Text(value) => match text::parse_unsigned(value.as_str(), usize::MAX as u64) {
            Some(n) if n > 0 => Ok(n as usize),
            _ => Err(refuse_positive("QCG_IDEMPOTENCY_MAX_ENTRIES", value.as_str())),
        },
    }
}

/// The lifetime of a committed mapping in seconds: `QCG_IDEMPOTENCY_TTL_SECS`,
/// or the default where it is unset. Anything else it may be set to is
/// refused.
pub fn effective_idempotency_ttl(value: &Variable, default_secs: u64) -> (r: Result<
    u64,
    String,
>)
    ensures
        match r {
            Ok(n) => positive_knob(
                "QCG_IDEMPOTENCY_TTL_SECS"@,
                value@,
                default_secs as nat,
                u64::MAX as nat,
            ) == Ok::<_, Seq<char>>(n as nat),
            Err(detail) => positive_knob(
                "QCG_IDEMPOTENCY_TTL_SECS"@,
                value@,
                default_secs as nat,
                u64::MAX as nat,
            ) == Err::<nat, _>(detail@),
        },
{
    match value {
        Variable::Unset => Ok(default_secs),
        Variable::NotText => Err(environment::refuse_not_text("QCG_IDEMPOTENCY_TTL_SECS")),
        Variable::Text(value) => match text::parse_unsigned(value.as_str(), u64::MAX) {
            Some(n) if n > 0 => Ok(n),
            _ => Err(refuse_positive("QCG_IDEMPOTENCY_TTL_SECS", value.as_str())),
        },
    }
}

/// `std::time::SystemTime::elapsed` on the Unix epoch: the whole seconds since
/// then, or `None` where the clock stands before it. Nothing is claimed of the
/// time.
#[verifier::external_body]
fn seconds_since_epoch() -> (r: Option<u64>) {
    match std::time::UNIX_EPOCH.elapsed() {
        Ok(elapsed) => Some(elapsed.as_secs()),
        Err(_) => None,
    }
}

/// The reading of a clock, as a decision sees it.
pub fn clock_reading(elapsed: Option<u64>) -> (r: Result<u64, String>)
    ensures
        match r {
            Ok(now) => elapsed == Some(now),
            Err(detail) => elapsed is None && detail@ == durable::clock_error(),
        },
{
    match elapsed {
        Some(now) => Ok(now),
        None => Err(
            "system clock is before the Unix epoch; refusing idempotency decision".to_owned(),
        ),
    }
}

/// Wall-clock seconds since the Unix epoch. A clock before the epoch is
/// refused: falling back to zero would expire every record.
pub fn now_unix() -> (r: Result<u64, String>)
    ensures
        r matches Err(detail) ==> detail@ == durable::clock_error(),
{
    clock_reading(seconds_since_epoch())
}

} // verus!
