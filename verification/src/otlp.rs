//! Export of run records as trace spans: the exporter's configuration, the
//! mapping of a record to a span, and what a collector's reply means.
use vstd::prelude::*;
use vstd::string::*;
use crate::environment;
use crate::environment::{Setting, Variable};
use crate::json;
use crate::json::Json;
use crate::text;

verus! {

/// Where and how often spans are exported.
#[derive(Debug, Clone, PartialEq, Eq)]
pub struct OtlpConfig {
    pub endpoint: String,
    pub interval_millis: u64,
}

/// An export configuration, as values.
pub struct OtlpModel {
    pub endpoint: Seq<char>,
    pub interval_millis: u64,
}

impl View for OtlpConfig {
    type V = OtlpModel;

    open spec fn view(&self) -> OtlpModel {
        OtlpModel { endpoint: self.endpoint@, interval_millis: self.interval_millis }
    }
}

pub open spec fn config_view(config: Option<OtlpConfig>) -> Option<OtlpModel> {
    match config {
        Some(config) => Some(config@),
        None => None,
    }
}

/// What a text parses to as a URL: its scheme and whether it has a host, or
/// the parser's complaint.
pub uninterp spec fn parsed_url(text: Seq<char>) -> Result<(Seq<char>, bool), Seq<char>>;

/// A parsed URL, as values.
pub open spec fn url_view(parsed: Result<(String, bool), String>) -> Result<
    (Seq<char>, bool),
    Seq<char>,
> {
    match parsed {
        Ok((scheme, has_host)) => Ok((scheme@, has_host)),
        Err(detail) => Err(detail@),
    }
}

/// `url::Url::parse`: the scheme, the presence of a host, and the error are a
/// function of the text alone. Which texts parse is not stated further.
#[verifier::external_body]
fn parse_url(text: &str) -> (r: Result<(String, bool), String>)
    ensures
        url_view(r) == parsed_url(text@),
{
    match url::Url::parse(text) {
        Ok(parsed) => Ok((parsed.scheme().to_owned(), parsed.host_str().is_some())),
        Err(error) => Err(error.to_string()),
    }
}

/// Why an endpoint that parses so is refused, if it is.
pub open spec fn endpoint_refusal(
    value: Seq<char>,
    parsed: Result<(Seq<char>, bool), Seq<char>>,
) -> Option<Seq<char>> {
    let prefix = "invalid QCG_OTLP_ENDPOINT `"@ + value + "`: "@;
    match parsed {
        Err(detail) => Some(prefix + detail),
        Ok((scheme, has_host)) => if scheme != "http"@ && scheme != "https"@ {
            Some(prefix + "scheme must be http or https"@)
        } else if !has_host {
            Some(prefix + "a host is required"@)
        } else {
            None
        },
    }
}

/// Judges an endpoint by what it parses to: only HTTP with a host will do.
pub fn check_endpoint(value: &str, parsed: Result<(String, bool), String>) -> (r: Result<
    (),
    String,
>)
    ensures
        match r {
            Ok(()) => endpoint_refusal(value@, url_view(parsed)) is None,
            Err(detail) => endpoint_refusal(value@, url_view(parsed)) == Some(detail@),
        },
{
    let mut message = "invalid QCG_OTLP_ENDPOINT `".to_owned();
    message.append(value);
    message.append("`: ");
    match parsed {
        Err(detail) => {
            message.append(detail.as_str());
            Err(message)
        },
        Ok((scheme, has_host)) => {
            if !text::same_text(scheme.as_str(), "http") && !text::same_text(
                scheme.as_str(),
                "https",
            ) {
                message.append("scheme must be http or https");
                return Err(message);
            }
            if !has_host {
                message.append("a host is required");
                return Err(message);
            }
            Ok(())
        },
    }
}

/// The export configuration that the environment asks for: none without an
/// endpoint, every five seconds where no interval is given, and at most every
/// tenth of a second.
pub open spec fn otlp_config(endpoint: Setting, interval: Setting) -> Result<
    Option<OtlpModel>,
    Seq<char>,
> {
    match endpoint {
        Setting::Unset => if interval is Unset {
            Ok(None)
        } else {
            Err("QCG_OTLP_INTERVAL_MS is set without QCG_OTLP_ENDPOINT; set both or neither"@)
        },
        Setting::NotText => Err(environment::not_text_refusal("QCG_OTLP_ENDPOINT"@)),
        Setting::Text(value) => match endpoint_refusal(value, parsed_url(value)) {
            Some(detail) => Err(detail),
            None => match interval {
                Setting::Unset => Ok(Some(OtlpModel { endpoint: value, interval_millis: 5000 })),
                Setting::NotText => Err(environment::not_text_refusal("QCG_OTLP_INTERVAL_MS"@)),
                Setting::Text(millis) => match text::unsigned_value(millis, u64::MAX as nat) {
                    Some(n) if n >= 100 => Ok(
                        Some(OtlpModel { endpoint: value, interval_millis: n as u64 }),
                    ),
                    _ => Err(
                        "invalid QCG_OTLP_INTERVAL_MS `"@ + millis
                            + "`: must be an integer of at least 100"@,
                    ),
                },
            },
        },
    }
}

/// Resolves the export configuration from the values of `QCG_OTLP_ENDPOINT`
/// and `QCG_OTLP_INTERVAL_MS`.
pub fn resolve_otlp_config(endpoint: &Variable, interval: &Variable) -> (r: Result<
    Option<OtlpConfig>,
    String,
>)
    ensures
        match r {
            Ok(config) => otlp_config(endpoint@, interval@) == Ok::<_, Seq<char>>(
                config_view(config),
            ),
            Err(detail) => otlp_config(endpoint@, interval@) == Err::<Option<OtlpModel>, _>(
                detail@,
            ),
        },
{
    let value = match endpoint {
        Variable::Unset => {
            if interval.is_set() {
                return Err(
                    "QCG_OTLP_INTERVAL_MS is set without QCG_OTLP_ENDPOINT; set both or neither".to_owned(),
                );
            }
            return Ok(None);
        },
        Variable::NotText => {
            return Err(environment::refuse_not_text("QCG_OTLP_ENDPOINT"));
        },
        Variable::Text(value) => value,
    };
    match check_endpoint(value.as_str(), parse_url(value.as_str())) {
        Ok(()) => {},
        Err(detail) => {
            return Err(detail);
        },
    }
    let interval_millis: u64 = match interval {
        Variable::Unset => 5000,
        Variable::NotText => {
            return Err(environment::refuse_not_text("QCG_OTLP_INTERVAL_MS"));
        },
        Variable::Text(millis) => match text::parse_unsigned(millis.as_str(), u64::MAX) {
            Some(n) if n >= 100 => n,
            _ => {
                let mut detail = "invalid QCG_OTLP_INTERVAL_MS `".to_owned();
                detail.append(millis.as_str());
                detail.append("`: must be an integer of at least 100");
                return Err(detail);
            },
        },
    };
    Ok(Some(OtlpConfig { endpoint: value.clone(), interval_millis }))
}

/// A run record, as far as its span depends on it.
#[derive(Debug)]
pub struct TraceRecord {
    pub kind: Option<String>,
    pub trace_id: Option<String>,
    pub span_id: Option<String>,
    pub seq: Option<u64>,
    pub timestamp: Option<String>,
    pub parent_span_id: Option<String>,
    pub node: Option<String>,
    pub status: Option<String>,
    /// The reason, where it is a text.
    pub reason: Option<String>,
    /// The code and the message of a structured reason.
    pub reason_code: Option<String>,
    pub reason_message: Option<String>,
    pub error: Option<String>,
}

/// The text that a document holds at a pointer.
pub open spec fn text_at(document: Seq<u8>, pointer: Seq<char>) -> Option<Seq<char>> {
    json::as_text(json::json_at(document, pointer))
}

fn read_text(document: &[u8], pointer: &str) -> (r: Option<String>)
    ensures
        r.deep_view() == text_at(document@, pointer@),
{
    json::text_of(json::lookup(document, pointer))
}

/// The record is what the document says of it, each value at its own pointer.
pub open spec fn is_record_of(document: Seq<u8>, record: TraceRecord) -> bool {
    &&& record.kind.deep_view() == text_at(document, "/t"@)
    &&& record.trace_id.deep_view() == text_at(document, "/trace_id"@)
    &&& record.span_id.deep_view() == text_at(document, "/span_id"@)
    &&& record.seq == json::as_unsigned(json::json_at(document, "/seq"@))
    &&& record.timestamp.deep_view() == text_at(document, "/ts"@)
    &&& record.parent_span_id.deep_view() == text_at(document, "/parent_span_id"@)
    &&& record.node.deep_view() == text_at(document, "/node"@)
    &&& record.status.deep_view() == text_at(document, "/status"@)
    &&& record.reason.deep_view() == text_at(document, "/reason"@)
    &&& record.reason_code.deep_view() == text_at(document, "/reason/code"@)
    &&& record.reason_message.deep_view() == text_at(document, "/reason/message"@)
    &&& record.error.deep_view() == text_at(document, "/error"@)
}

/// Reads a run record out of its JSON document.
pub fn read_record(document: &[u8]) -> (r: TraceRecord)
    ensures
        is_record_of(document@, r),
{
    TraceRecord {
        kind: read_text(document, "/t"),
        trace_id: read_text(document, "/trace_id"),
        span_id: read_text(document, "/span_id"),
        seq: json::unsigned_of(json::lookup(document, "/seq")),
        timestamp: read_text(document, "/ts"),
        parent_span_id: read_text(document, "/parent_span_id"),
        node: read_text(document, "/node"),
        status: read_text(document, "/status"),
        reason: read_text(document, "/reason"),
        reason_code: read_text(document, "/reason/code"),
        reason_message: read_text(document, "/reason/message"),
        error: read_text(document, "/error"),
    }
}

/// The record's own account of what went wrong.
pub open spec fn cause(record: TraceRecord) -> Option<Seq<char>> {
    if record.reason is Some {
        Some(record.reason->0@)
    } else {
        match (record.reason_code, record.reason_message) {
            (Some(code), Some(message)) => Some(code@ + ": "@ + message@),
            (Some(code), None) => Some(code@),
            (None, Some(message)) => Some(message@),
            (None, None) => record.error.deep_view(),
        }
    }
}

/// The record's own account of what went wrong, in words.
pub fn reason_message(record: &TraceRecord) -> (r: Option<String>)
    ensures
        r.deep_view() == cause(*record),
{
    if let Some(reason) = &record.reason {
        return Some(reason.clone());
    }
    match (&record.reason_code, &record.reason_message) {
        (Some(code), Some(message)) => {
            let mut joined = code.clone();
            joined.append(": ");
            joined.append(message.as_str());
            Some(joined)
        },
        (Some(code), None) => Some(code.clone()),
        (None, Some(message)) => Some(message.clone()),
        (None, None) => text::copy_option(&record.error),
    }
}

/// Span status codes.
pub const STATUS_OK: u8 = 1;

pub const STATUS_ERROR: u8 = 2;

/// Record kinds that end a run without success, whatever else they say.
pub open spec fn ends_in_error(kind: Seq<char>) -> bool {
    kind == "run_error"@ || kind == "run_canceled"@ || kind == "run_interrupted"@
}

/// The statuses with which a finished step has succeeded.
pub open spec fn step_succeeded(status: Seq<char>) -> bool {
    status == "success"@ || status == "repaired"@ || status == "routed"@ || status
        == "regenerated"@ || status == "answered_on_fail"@
}

/// The statuses with which a finished run is known not to have succeeded.
pub open spec fn run_known_unsuccessful(status: Seq<char>) -> bool {
    status == "failed"@ || status == "check_failed"@ || status == "error"@ || status == "canceled"@
        || status == "cancelled"@ || status == "interrupted"@
}

/// The statuses with which a finished step is known not to have succeeded.
pub open spec fn step_known_unsuccessful(status: Seq<char>) -> bool {
    status == "failed"@ || status == "check_failed"@ || status == "repair_exhausted"@ || status
        == "regenerate_exhausted"@ || status == "recheck_failed"@ || status == "error"@ || status
        == "canceled"@ || status == "cancelled"@ || status == "interrupted"@ || status == "skipped"@
}

/// The status of a record; empty where it has none.
pub open spec fn status_text(record: TraceRecord) -> Seq<char> {
    match record.status {
        Some(status) => status@,
        None => ""@,
    }
}

/// The error status of a record, with the record's own account of it or else
/// with `otherwise`.
pub open spec fn failed_because(record: TraceRecord, otherwise: Seq<char>) -> (u8, Option<
    Seq<char>,
>) {
    (
        STATUS_ERROR,
        match cause(record) {
            Some(detail) => Some(detail),
            None => Some(otherwise),
        },
    )
}

/// The status of a record's span. A finished run or step is OK only when its
/// status says so; every other kind of record is OK unless it ends its run in
/// error.
pub open spec fn span_status(kind: Seq<char>, record: TraceRecord) -> (u8, Option<Seq<char>>) {
    let status = status_text(record);
    if ends_in_error(kind) {
        failed_because(record, kind)
    } else if kind == "run_finished"@ {
        if status == "success"@ {
            (STATUS_OK, None)
        } else if run_known_unsuccessful(status) {
            failed_because(record, status)
        } else if status.len() == 0 {
            (STATUS_ERROR, Some("run_finished without status"@))
        } else {
            (STATUS_ERROR, Some("run_finished status="@ + status))
        }
    } else if kind == "step_finished"@ {
        if step_succeeded(status) {
            (STATUS_OK, None)
        } else if step_known_unsuccessful(status) {
            failed_because(record, status)
        } else if status.len() == 0 {
            (STATUS_ERROR, Some("step_finished without status"@))
        } else {
            (STATUS_ERROR, Some("step_finished status="@ + status))
        }
    } else {
        (STATUS_OK, None)
    }
}

fn error_status(record: &TraceRecord, otherwise: &str) -> (r: (u8, Option<String>))
    ensures
        (r.0, r.1.deep_view()) == failed_because(*record, otherwise@),
{
    match reason_message(record) {
        Some(detail) => (STATUS_ERROR, Some(detail)),
        None => (STATUS_ERROR, Some(otherwise.to_owned())),
    }
}

fn unknown_status(prefix: &str, status: &str) -> (r: (u8, Option<String>))
    ensures
        r.0 == STATUS_ERROR,
        r.1.deep_view() == Some(prefix@ + status@),
{
    let mut message = prefix.to_owned();
    message.append(status);
    (STATUS_ERROR, Some(message))
}

fn run_failed(status: &str) -> (r: bool)
    ensures
        r == run_known_unsuccessful(status@),
{
    text::same_text(status, "failed") || text::same_text(status, "check_failed")
        || text::same_text(status, "error") || text::same_text(status, "canceled")
        || text::same_text(status, "cancelled") || text::same_text(status, "interrupted")
}

fn step_failed(status: &str) -> (r: bool)
    ensures
        r == step_known_unsuccessful(status@),
{
    text::same_text(status, "failed") || text::same_text(status, "check_failed")
        || text::same_text(status, "repair_exhausted") || text::same_text(
        status,
        "regenerate_exhausted",
    ) || text::same_text(status, "recheck_failed") || text::same_text(status, "error")
        || text::same_text(status, "canceled") || text::same_text(status, "cancelled")
        || text::same_text(status, "interrupted") || text::same_text(status, "skipped")
}

/// The status of a record's span, with a message where it is an error.
pub fn span_status_for_event(kind: &str, record: &TraceRecord) -> (r: (u8, Option<String>))
    ensures
        (r.0, r.1.deep_view()) == span_status(kind@, *record),
{
    let status: String = match &record.status {
        Some(status) => status.clone(),
        None => "".to_owned(),
    };
    let status = status.as_str();
    if text::same_text(kind, "run_error") || text::same_text(kind, "run_canceled")
        || text::same_text(kind, "run_interrupted") {
        return error_status(record, kind);
    }
    if text::same_text(kind, "run_finished") {
        if text::same_text(status, "success") {
            return (STATUS_OK, None);
        }
        if run_failed(status) {
            return error_status(record, status);
        }
        if status.is_empty() {
            return (STATUS_ERROR, Some("run_finished without status".to_owned()));
        }
        return unknown_status("run_finished status=", status);
    }
    if text::same_text(kind, "step_finished") {
        if text::same_text(status, "success") || text::same_text(status, "repaired")
            || text::same_text(status, "routed") || text::same_text(status, "regenerated")
            || text::same_text(status, "answered_on_fail") {
            return (STATUS_OK, None);
        }
        if step_failed(status) {
            return error_status(record, status);
        }
        if status.is_empty() {
            return (STATUS_ERROR, Some("step_finished without status".to_owned()));
        }
        return unknown_status("step_finished status=", status);
    }
    (STATUS_OK, None)
}

/// A failure is never displayed as OK: the span of a finished run or step is
/// OK only when the run's status is `success` or the step's is one of its
/// successful ones.
pub proof fn only_success_is_ok(kind: Seq<char>, record: TraceRecord)
    requires
        span_status(kind, record).0 == STATUS_OK,
    ensures
        !ends_in_error(kind),
        kind == "run_finished"@ ==> status_text(record) == "success"@,
        kind == "step_finished"@ ==> step_succeeded(status_text(record)),
{
}

/// Every error span says why.
pub proof fn every_error_has_a_message(kind: Seq<char>, record: TraceRecord)
    ensures
        span_status(kind, record).0 == STATUS_ERROR <==> span_status(kind, record).1 is Some,
        span_status(kind, record).0 == STATUS_OK || span_status(kind, record).0 == STATUS_ERROR,
{
}

} // verus!
