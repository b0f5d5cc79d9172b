//! What the collector is told of a run's records.
use vstd::prelude::*;
use crate::exporter;
use crate::json::JsonModel;
use crate::otlp;
use crate::otlp::TraceRecord;
use crate::payload;
use crate::json;
use crate::spans;
use crate::spans::{AttributeModel, SpanModel};
use crate::environment::Setting;
use crate::text;

verus! {

/// The record carries this status.
pub open spec fn has_status(record: TraceRecord, status: Seq<char>) -> bool {
    record.status is Some && record.status->0@ == status
}

/// A finished step is reported as a success exactly where its status is one of
/// these five; every other status, and a missing one, is an error.
pub proof fn a_step_succeeds_in_five_ways(record: TraceRecord)
    ensures
        ({
            let reported = otlp::span_status("step_finished"@, record);
            &&& (reported.0 == 1 <==> has_status(record, "success"@) || has_status(
                record,
                "repaired"@,
            ) || has_status(record, "routed"@) || has_status(record, "regenerated"@) || has_status(
                record,
                "answered_on_fail"@,
            ))
            &&& (reported.0 == 1 || reported.0 == 2)
            &&& (reported.0 == 1 <==> reported.1 is None)
        }),
{
    kinds_differ();
    empty_is_no_success();
}

/// A step that ended in one of the known failures is an error, and the message
/// is the record's own cause, or the status where it gives none.
pub proof fn a_failed_step_is_an_error(record: TraceRecord)
    requires
        has_status(record, "failed"@) || has_status(record, "check_failed"@) || has_status(
            record,
            "repair_exhausted"@,
        ) || has_status(record, "regenerate_exhausted"@) || has_status(record, "recheck_failed"@)
            || has_status(record, "error"@) || has_status(record, "canceled"@) || has_status(
            record,
            "cancelled"@,
        ) || has_status(record, "interrupted"@) || has_status(record, "skipped"@),
    ensures
        otlp::span_status("step_finished"@, record).0 == 2,
        otlp::span_status("step_finished"@, record).1 == Some(
            told_cause(record, record.status->0@),
        ),
{
    kinds_differ();
    statuses_differ();
    causes_are_told(record);
}

/// A finished run is reported as a success exactly where its status is
/// `success`.
pub proof fn a_run_succeeds_in_one_way(record: TraceRecord)
    ensures
        ({
            let reported = otlp::span_status("run_finished"@, record);
            &&& (reported.0 == 1 <==> has_status(record, "success"@))
            &&& (reported.0 == 1 || reported.0 == 2)
            &&& (reported.0 == 1 <==> reported.1 is None)
        }),
{
    kinds_differ();
    empty_is_no_success();
}

/// A run that finished in one of the known failures is an error, and the
/// message is the record's own cause, or the status where it gives none.
pub proof fn a_failed_run_is_an_error(record: TraceRecord)
    requires
        has_status(record, "failed"@) || has_status(record, "check_failed"@) || has_status(
            record,
            "error"@,
        ) || has_status(record, "canceled"@) || has_status(record, "cancelled"@) || has_status(
            record,
            "interrupted"@,
        ),
    ensures
        otlp::span_status("run_finished"@, record).0 == 2,
        otlp::span_status("run_finished"@, record).1 == Some(
            told_cause(record, record.status->0@),
        ),
{
    kinds_differ();
    statuses_differ();
    causes_are_told(record);
}

/// A finished step or run with a status that is not known is an error that
/// quotes the status; one without a status says so.
pub proof fn an_unknown_status_is_quoted(record: TraceRecord)
    ensures
        record.status is None ==> otlp::span_status("step_finished"@, record).1 == Some(
            "step_finished without status"@,
        ) && otlp::span_status("run_finished"@, record).1 == Some("run_finished without status"@),
        has_status(record, "repaired"@) || has_status(record, "routed"@) || has_status(
            record,
            "skipped"@,
        ) || has_status(record, "repair_exhausted"@) ==> otlp::span_status(
            "run_finished"@,
            record,
        ).1 == Some("run_finished status="@ + record.status->0@),
        record.status is Some && record.status->0@.len() > 40 ==> otlp::span_status(
            "step_finished"@,
            record,
        ).1 == Some("step_finished status="@ + record.status->0@) && otlp::span_status(
            "run_finished"@,
            record,
        ).1 == Some("run_finished status="@ + record.status->0@),
{
    kinds_differ();
    statuses_differ();
    empty_is_no_success();
    statuses_are_short();
}

/// An error, a cancellation and an interruption of a run are errors, and the
/// message is the record's own cause, or the kind where it gives none. Any
/// other record but a finished step or run is fine.
pub proof fn an_event_is_an_error_by_its_kind(kind: Seq<char>, record: TraceRecord)
    ensures
        kind == "run_error"@ || kind == "run_canceled"@ || kind == "run_interrupted"@
            ==> otlp::span_status(kind, record) == (2u8, Some(told_cause(record, kind))),
        kind != "run_error"@ && kind != "run_canceled"@ && kind != "run_interrupted"@ && kind
            != "run_finished"@ && kind != "step_finished"@ ==> otlp::span_status(kind, record) == (
            1u8,
            None::<Seq<char>>,
        ),
{
    kinds_differ();
    causes_are_told(record);
}

/// What a record tells of its cause: its reason where that is a text; the code
/// and the message of a structured reason, with a colon between them where
/// there are both; its error; and otherwise the words given.
pub open spec fn told_cause(record: TraceRecord, otherwise: Seq<char>) -> Seq<char> {
    if record.reason is Some {
        record.reason->0@
    } else if record.reason_code is Some && record.reason_message is Some {
        record.reason_code->0@ + ": "@ + record.reason_message->0@
    } else if record.reason_code is Some {
        record.reason_code->0@
    } else if record.reason_message is Some {
        record.reason_message->0@
    } else if record.error is Some {
        record.error->0@
    } else {
        otherwise
    }
}

proof fn causes_are_told(record: TraceRecord)
    ensures
        forall|otherwise: Seq<char>|
            (match otlp::cause(record) {
                Some(detail) => detail,
                None => otherwise,
            }) == #[trigger] told_cause(record, otherwise),
{
}

/// A record becomes a span of its own: under the record's trace and span, named
/// after the event, at the record's instant and one nanosecond long.
pub proof fn a_span_is_its_record(run_id: Seq<char>, record: TraceRecord)
    requires
        spans::record_span(run_id, record) is Ok,
    ensures
        ({
            let span = spans::record_span(run_id, record)->Ok_0;
            let instant = spans::rfc3339(record.timestamp->0@)->Ok_0;
            &&& record.kind is Some && record.trace_id is Some && record.span_id is Some
                && record.seq is Some && record.timestamp is Some
            &&& spans::rfc3339(record.timestamp->0@) is Ok
            &&& instant.0 >= 0
            &&& span.trace_id == record.trace_id->0@
            &&& span.span_id == record.span_id->0@
            &&& span.parent_span_id == (if record.parent_span_id is Some {
                record.parent_span_id->0@
            } else {
                ""@
            })
            &&& span.name == "qcg.event "@ + record.kind->0@
            &&& span.start == instant.0 * 1_000_000_000 + instant.1
            &&& span.end == span.start + 1
            &&& span.status == otlp::span_status(record.kind->0@, record)
        }),
{
}

/// The document holds this text at the pointer.
pub open spec fn says(document: Seq<u8>, pointer: Seq<char>, value: Seq<char>) -> bool {
    json::json_at(document, pointer) == Some(JsonModel::Text(value))
}

/// The document holds no text at the pointer.
pub open spec fn is_silent(document: Seq<u8>, pointer: Seq<char>) -> bool {
    !(json::json_at(document, pointer) matches Some(JsonModel::Text(_)))
}

/// A span tells what its document says: the trace, the span, its parent, the
/// kind of the event, its number, and the outcome that the document gives.
pub proof fn a_span_tells_its_document(run_id: Seq<char>, document: Seq<u8>, record: TraceRecord)
    requires
        otlp::is_record_of(document, record),
        spans::record_span(run_id, record) is Ok,
    ensures
        ({
            let span = spans::record_span(run_id, record)->Ok_0;
            &&& says(document, "/trace_id"@, span.trace_id)
            &&& says(document, "/span_id"@, span.span_id)
            &&& (says(document, "/parent_span_id"@, span.parent_span_id) || (is_silent(
                document,
                "/parent_span_id"@,
            ) && span.parent_span_id == ""@))
            &&& exists|kind: Seq<char>| #[trigger]
                says(document, "/t"@, kind) && span.name == "qcg.event "@ + kind
            &&& exists|at: Seq<char>| #[trigger]
                says(document, "/ts"@, at) && (spans::rfc3339(at) matches Ok(instant) && span.start
                    == instant.0 * 1_000_000_000 + instant.1)
            &&& (json::json_at(document, "/seq"@) matches Some(
                JsonModel::Number { unsigned: Some(seq), .. },
            ) && span.attributes.contains(("qcg.event.seq"@, AttributeModel::Int(seq))))
            &&& forall|status: Seq<char>|
                #![trigger says(document, "/status"@, status)]
                says(document, "/status"@, status) ==> span.attributes.contains(
                    ("qcg.status"@, AttributeModel::Text(status)),
                )
            &&& forall|node: Seq<char>|
                #![trigger says(document, "/node"@, node)]
                says(document, "/node"@, node) ==> span.attributes.contains(
                    ("qcg.node.id"@, AttributeModel::Text(node)),
                )
        }),
{
    let span = spans::record_span(run_id, record)->Ok_0;
    assert(says(document, "/t"@, record.kind->0@));
    assert(says(document, "/ts"@, record.timestamp->0@));
    a_span_carries_its_record(
        run_id,
        record,
        "qcg.event.seq"@,
        AttributeModel::Int(record.seq->0),
    );
    assert forall|status: Seq<char>|
        #![trigger says(document, "/status"@, status)]
        says(document, "/status"@, status) implies span.attributes.contains(
        ("qcg.status"@, AttributeModel::Text(status)),
    ) by {
        assert(record.status.deep_view() == Some(status));
        a_span_carries_its_record(
            run_id,
            record,
            "qcg.status"@,
            AttributeModel::Text(status),
        );
    }
    assert forall|node: Seq<char>|
        #![trigger says(document, "/node"@, node)]
        says(document, "/node"@, node) implies span.attributes.contains(
        ("qcg.node.id"@, AttributeModel::Text(node)),
    ) by {
        assert(record.node.deep_view() == Some(node));
        a_span_carries_its_record(run_id, record, "qcg.node.id"@, AttributeModel::Text(node));
    }
}

/// The cause that a record tells is the one in its document.
pub proof fn a_cause_is_read_from_its_document(
    document: Seq<u8>,
    record: TraceRecord,
    reason: Seq<char>,
    code: Seq<char>,
    message: Seq<char>,
    error: Seq<char>,
    otherwise: Seq<char>,
)
    requires
        otlp::is_record_of(document, record),
    ensures
        says(document, "/reason"@, reason) ==> told_cause(record, otherwise) == reason,
        is_silent(document, "/reason"@) && says(document, "/reason/code"@, code) && says(
            document,
            "/reason/message"@,
            message,
        ) ==> told_cause(record, otherwise) == code + ": "@ + message,
        is_silent(document, "/reason"@) && is_silent(document, "/reason/code"@) && is_silent(
            document,
            "/reason/message"@,
        ) && says(document, "/error"@, error) ==> told_cause(record, otherwise) == error,
{
    if says(document, "/reason"@, reason) {
        assert(record.reason.deep_view() == Some(reason));
    }
    if says(document, "/reason/code"@, code) {
        assert(record.reason_code.deep_view() == Some(code));
    }
    if says(document, "/reason/message"@, message) {
        assert(record.reason_message.deep_view() == Some(message));
    }
    if says(document, "/error"@, error) {
        assert(record.error.deep_view() == Some(error));
    }
}

/// A record is exported exactly where it has a kind, a trace, a span, a number
/// and an instant since 1970.
pub proof fn a_complete_record_is_exported(run_id: Seq<char>, record: TraceRecord)
    ensures
        spans::record_span(run_id, record) is Ok <==> record.kind is Some && record.trace_id is Some
            && record.span_id is Some && record.seq is Some && record.timestamp is Some
            && spans::rfc3339(record.timestamp->0@) is Ok && spans::rfc3339(
            record.timestamp->0@,
        )->Ok_0.0 >= 0,
        record.kind is None ==> spans::record_span(run_id, record) == Err::<SpanModel, Seq<char>>(
            "record kind is required"@,
        ),
        record.kind is Some && record.trace_id is None ==> spans::record_span(run_id, record)
            == Err::<SpanModel, Seq<char>>(
            "record `"@ + record.kind->0@ + "` carries no "@ + "trace_id"@,
        ),
        record.kind is Some && record.trace_id is Some && record.span_id is None
            ==> spans::record_span(run_id, record) == Err::<SpanModel, Seq<char>>(
            "record `"@ + record.kind->0@ + "` carries no "@ + "span_id"@,
        ),
{
}

/// A span carries the run, the kind and the number of its record, and the node,
/// the status and the reason where the record has them; and nothing else.
pub proof fn a_span_carries_its_record(run_id: Seq<char>, record: TraceRecord, key: Seq<char>, value:
    AttributeModel)
    requires
        spans::record_span(run_id, record) is Ok,
    ensures
        spans::record_span(run_id, record)->Ok_0.attributes.contains((key, value)) <==> {
            ||| key == "qcg.run.id"@ && value == AttributeModel::Text(run_id)
            ||| key == "qcg.event.kind"@ && value == AttributeModel::Text(record.kind->0@)
            ||| key == "qcg.event.seq"@ && value == AttributeModel::Int(record.seq->0)
            ||| key == "qcg.node.id"@ && record.node is Some && value == AttributeModel::Text(
                record.node->0@,
            )
            ||| key == "qcg.status"@ && record.status is Some && value == AttributeModel::Text(
                record.status->0@,
            )
            ||| key == "qcg.reason"@ && record.reason is Some && value == AttributeModel::Text(
                record.reason->0@,
            )
            ||| key == "qcg.reason.code"@ && record.reason is None && record.reason_code is Some
                && value == AttributeModel::Text(record.reason_code->0@)
            ||| key == "qcg.reason.message"@ && record.reason is None && record.reason_message is Some
                && value == AttributeModel::Text(record.reason_message->0@)
        },
{
    let first = seq![
        ("qcg.run.id"@, AttributeModel::Text(run_id)),
        ("qcg.event.kind"@, AttributeModel::Text(record.kind->0@)),
        ("qcg.event.seq"@, AttributeModel::Int(record.seq->0)),
    ];
    let node = spans::optional_attribute("qcg.node.id"@, record.node);
    let status = spans::optional_attribute("qcg.status"@, record.status);
    let reason = spans::optional_attribute("qcg.reason"@, record.reason);
    let code = spans::optional_attribute("qcg.reason.code"@, record.reason_code);
    let message = spans::optional_attribute("qcg.reason.message"@, record.reason_message);
    let pair = (key, value);
    first_has(first, pair);
    optional_has("qcg.node.id"@, record.node, pair);
    optional_has("qcg.status"@, record.status, pair);
    optional_has("qcg.reason"@, record.reason, pair);
    optional_has("qcg.reason.code"@, record.reason_code, pair);
    optional_has("qcg.reason.message"@, record.reason_message, pair);
    sum_has(first, node, pair);
    if record.reason is Some {
        sum_has(status, reason, pair);
        sum_has(first + node, status + reason, pair);
    } else {
        sum_has(code, message, pair);
        sum_has(status, code + message, pair);
        sum_has(first + node, status + (code + message), pair);
    }
}

/// A batch has one span for each record, in order, and fails where the first
/// bad record does.
pub proof fn a_batch_keeps_every_record(run_id: Seq<char>, records: Seq<TraceRecord>, i: int)
    requires
        0 <= i < records.len(),
    ensures
        spans::batch_spans(run_id, records) matches Ok(batch) ==> batch.len() == records.len()
            && spans::record_span(run_id, records[i]) == Ok::<SpanModel, Seq<char>>(batch[i]),
        spans::record_span(run_id, records[i]) is Err && (forall|j: int|
            0 <= j < i ==> spans::record_span(run_id, #[trigger] records[j]) is Ok)
            ==> spans::batch_spans(run_id, records) == Err::<Seq<SpanModel>, Seq<char>>(
            spans::record_span(run_id, records[i])->Err_0,
        ),
        (forall|j: int|
            0 <= j < records.len() ==> spans::record_span(run_id, #[trigger] records[j]) is Ok)
            ==> spans::batch_spans(run_id, records) is Ok,
    decreases records.len(),
{
    let front = records.drop_last();
    let last = records.len() - 1;
    if i < last {
        a_batch_keeps_every_record(run_id, front, i);
        assert(front[i] == records[i]);
    } else if front.len() > 0 {
        a_batch_keeps_every_record(run_id, front, 0);
    } else {
        assert(spans::batch_spans(run_id, front) == Ok::<Seq<SpanModel>, Seq<char>>(Seq::empty()));
    }
    if forall|j: int| 0 <= j < last ==> spans::record_span(run_id, #[trigger] records[j]) is Ok {
        assert forall|j: int| 0 <= j < front.len() implies spans::record_span(
            run_id,
            #[trigger] front[j],
        ) is Ok by {
            assert(front[j] == records[j]);
        }
    }
    if forall|j: int| 0 <= j < i ==> spans::record_span(run_id, #[trigger] records[j]) is Ok {
        assert forall|j: int| 0 <= j < i implies spans::record_span(
            run_id,
            #[trigger] front[j],
        ) is Ok by {
            assert(front[j] == records[j]);
        }
    }
    if forall|j: int|
        0 <= j < records.len() ==> spans::record_span(run_id, #[trigger] records[j]) is Ok {
        assert(spans::record_span(run_id, records[last]) is Ok);
    }
}

/// A record is new exactly where it has a number above the cursor.
pub proof fn a_record_is_new_above_the_cursor(seq: u64, cursor: u64)
    ensures
        exporter::is_new(Some(seq), cursor) <==> seq > cursor,
        !exporter::is_new(None, cursor),
{
}

/// A count that the collector reports is taken where it is a number that is
/// not negative, or such a number in a text where texts are allowed; anything
/// else counts as none.
pub proof fn a_reported_count_is_a_number(n: i64, unsigned: Option<u64>, digits: nat, or_text: bool)
    ensures
        exporter::reported_count(None, or_text) == 0,
        exporter::reported_count(Some(JsonModel::Number { signed: Some(n), unsigned }), or_text)
            == if n > 0 {
            n as int
        } else {
            0
        },
        exporter::reported_count(Some(JsonModel::Number { signed: None, unsigned }), or_text) == 0,
        exporter::reported_count(Some(JsonModel::Text(text::decimal(digits))), true)
            == if digits <= i64::MAX {
            digits as int
        } else {
            0
        },
        exporter::reported_count(Some(JsonModel::Text(seq!['-'] + text::decimal(digits))), true)
            == 0,
        exporter::reported_count(Some(JsonModel::Text(text::decimal(digits))), false) == 0,
{
    super::texts::signed_numbers_are_read(digits);
}

/// The camel-case spelling of a reply is read where it is there, and the
/// snake-case one otherwise.
pub proof fn either_spelling_of_a_reply_is_read(body: Seq<u8>)
    ensures
        json::json_at(body, "/partialSuccess"@) is Some && json::json_at(
            body,
            "/partialSuccess/rejectedSpans"@,
        ) is Some ==> exporter::reply_spans(body) == json::json_at(
            body,
            "/partialSuccess/rejectedSpans"@,
        ),
        json::json_at(body, "/partialSuccess"@) is Some && json::json_at(
            body,
            "/partialSuccess/rejectedSpans"@,
        ) is None ==> exporter::reply_spans(body) == json::json_at(
            body,
            "/partialSuccess/rejected_spans"@,
        ),
        json::json_at(body, "/partialSuccess"@) is None && json::json_at(
            body,
            "/partial_success/rejectedSpans"@,
        ) is Some ==> exporter::reply_spans(body) == json::json_at(
            body,
            "/partial_success/rejectedSpans"@,
        ),
        json::json_at(body, "/partialSuccess"@) is None && json::json_at(
            body,
            "/partial_success/rejectedSpans"@,
        ) is None ==> exporter::reply_spans(body) == json::json_at(
            body,
            "/partial_success/rejected_spans"@,
        ),
        json::json_at(body, "/partialSuccess"@) is Some && json::json_at(
            body,
            "/partialSuccess/errorMessage"@,
        ) is Some ==> exporter::reply_message(body) == json::json_at(
            body,
            "/partialSuccess/errorMessage"@,
        ),
        json::json_at(body, "/partialSuccess"@) is Some && json::json_at(
            body,
            "/partialSuccess/errorMessage"@,
        ) is None ==> exporter::reply_message(body) == json::json_at(
            body,
            "/partialSuccess/error_message"@,
        ),
        json::json_at(body, "/partialSuccess"@) is None && json::json_at(
            body,
            "/partial_success/errorMessage"@,
        ) is Some ==> exporter::reply_message(body) == json::json_at(
            body,
            "/partial_success/errorMessage"@,
        ),
        json::json_at(body, "/partialSuccess"@) is None && json::json_at(
            body,
            "/partial_success/errorMessage"@,
        ) is None ==> exporter::reply_message(body) == json::json_at(
            body,
            "/partial_success/error_message"@,
        ),
        json::json_at(body, "/logsPartialSuccess"@) is Some && json::json_at(
            body,
            "/logsPartialSuccess/rejectedLogRecords"@,
        ) is Some ==> exporter::reply_logs(body) == json::json_at(
            body,
            "/logsPartialSuccess/rejectedLogRecords"@,
        ),
        json::json_at(body, "/logsPartialSuccess"@) is Some && json::json_at(
            body,
            "/logsPartialSuccess/rejectedLogRecords"@,
        ) is None ==> exporter::reply_logs(body) == json::json_at(
            body,
            "/logsPartialSuccess/rejected_log_records"@,
        ),
        json::json_at(body, "/logsPartialSuccess"@) is None && json::json_at(
            body,
            "/logs_partial_success/rejectedLogRecords"@,
        ) is Some ==> exporter::reply_logs(body) == json::json_at(
            body,
            "/logs_partial_success/rejectedLogRecords"@,
        ),
        json::json_at(body, "/logsPartialSuccess"@) is None && json::json_at(
            body,
            "/logs_partial_success/rejectedLogRecords"@,
        ) is None ==> exporter::reply_logs(body) == json::json_at(
            body,
            "/logs_partial_success/rejected_log_records"@,
        ),
{
}

/// A body is blank exactly where it holds no character but a space, a tab, a
/// line feed, a form feed or a carriage return.
pub proof fn a_blank_body_holds_only_spaces(body: Seq<u8>)
    ensures
        exporter::is_blank(body) <==> forall|i: int|
            0 <= i < body.len() ==> #[trigger] body[i] == 32 || body[i] == 9 || body[i] == 10
                || body[i] == 12 || body[i] == 13,
{
    if exporter::is_blank(body) {
        assert forall|i: int| 0 <= i < body.len() implies #[trigger] body[i] == 32 || body[i] == 9
            || body[i] == 10 || body[i] == 12 || body[i] == 13 by {
            assert(exporter::ascii_space(body[i]));
        }
    }
}

/// A span is exported exactly where an endpoint is set. The endpoint is a URL
/// of the web with a host, and the interval a number of at least a hundred
/// milliseconds, five seconds where it is not set; an interval alone is
/// refused.
pub proof fn an_export_is_configured(endpoint: Setting, interval: Setting, n: nat)
    ensures
        endpoint is Unset && interval is Unset ==> otlp::otlp_config(endpoint, interval) == Ok::<
            Option<otlp::OtlpModel>,
            Seq<char>,
        >(None),
        endpoint is Unset && interval !is Unset ==> otlp::otlp_config(endpoint, interval) is Err,
        endpoint is NotText ==> otlp::otlp_config(endpoint, interval) is Err,
        endpoint matches Setting::Text(url) ==> {
            let usable = otlp::parsed_url(url) matches Ok(parsed) && (parsed.0 == "http"@
                || parsed.0 == "https"@) && parsed.1;
            let answer = otlp::otlp_config(endpoint, interval);
            &&& (!usable ==> answer is Err)
            &&& (usable && interval is NotText ==> answer is Err)
            &&& (usable && interval is Unset ==> answer is Ok && answer->Ok_0 is Some
                && answer->Ok_0->0.endpoint == url && answer->Ok_0->0.interval_millis == 5000)
            &&& (usable && interval == Setting::Text(text::decimal(n)) ==> (if 100 <= n
                <= u64::MAX {
                answer is Ok && answer->Ok_0 is Some && answer->Ok_0->0.endpoint == url
                    && answer->Ok_0->0.interval_millis == n
            } else {
                answer is Err
            }))
        },
{
    super::texts::numbers_are_read_back(n, u64::MAX as nat, Seq::empty());
}

/// `part` stands somewhere in `body`.
pub open spec fn has_part(body: Seq<char>, part: Seq<char>) -> bool {
    exists|before: Seq<char>, after: Seq<char>| body == #[trigger] (before + part + after)
}

/// A span is written with each of its values under the name of that value.
pub proof fn a_span_is_written_field_by_field(span: SpanModel)
    ensures
        has_part(payload::span_json(span), "\"traceId\":"@ + json::quoted(span.trace_id)),
        has_part(payload::span_json(span), "\"spanId\":"@ + json::quoted(span.span_id)),
        has_part(payload::span_json(span), "\"parentSpanId\":"@ + json::quoted(span.parent_span_id)),
        has_part(payload::span_json(span), "\"name\":"@ + json::quoted(span.name)),
        has_part(
            payload::span_json(span),
            "\"startTimeUnixNano\":"@ + json::quoted(text::decimal(span.start)),
        ),
        has_part(
            payload::span_json(span),
            "\"endTimeUnixNano\":"@ + json::quoted(text::decimal(span.end)),
        ),
        has_part(
            payload::span_json(span),
            "\"status\":{\"code\":"@ + text::decimal(span.status.0 as nat),
        ),
        has_part(payload::span_json(span), "\"kind\":1,"@),
        span.status.1 is Some ==> has_part(
            payload::span_json(span),
            ",\"message\":"@ + json::quoted(span.status.1->0) + "}"@,
        ),
{
    let t0 = "{\"attributes\":["@ + payload::elements(payload::attribute_items(span.attributes));
    let q_end = json::quoted(text::decimal(span.end));
    let q_name = json::quoted(span.name);
    let q_parent = json::quoted(span.parent_span_id);
    let q_span = json::quoted(span.span_id);
    let q_start = json::quoted(text::decimal(span.start));
    let status = payload::status_json(span.status);
    let q_trace = json::quoted(span.trace_id);
    assert("],\"endTimeUnixNano\":"@ =~= seq![']', ','] + "\"endTimeUnixNano\":"@) by {
        reveal_strlit("],\"endTimeUnixNano\":");
        reveal_strlit("\"endTimeUnixNano\":");
    }
    assert(",\"kind\":1,\"name\":"@ =~= (seq![','] + "\"kind\":1,"@) + "\"name\":"@) by {
        reveal_strlit(",\"kind\":1,\"name\":");
        reveal_strlit("\"kind\":1,");
        reveal_strlit("\"name\":");
    }
    assert(",\"parentSpanId\":"@ =~= seq![','] + "\"parentSpanId\":"@) by {
        reveal_strlit(",\"parentSpanId\":");
        reveal_strlit("\"parentSpanId\":");
    }
    assert(",\"spanId\":"@ =~= seq![','] + "\"spanId\":"@) by {
        reveal_strlit(",\"spanId\":");
        reveal_strlit("\"spanId\":");
    }
    assert(",\"startTimeUnixNano\":"@ =~= seq![','] + "\"startTimeUnixNano\":"@) by {
        reveal_strlit(",\"startTimeUnixNano\":");
        reveal_strlit("\"startTimeUnixNano\":");
    }
    assert(",\"traceId\":"@ =~= seq![','] + "\"traceId\":"@) by {
        reveal_strlit(",\"traceId\":");
        reveal_strlit("\"traceId\":");
    }
    assert(",\"status\":"@ + "{\"code\":"@ =~= seq![','] + "\"status\":{\"code\":"@) by {
        reveal_strlit(",\"status\":");
        reveal_strlit("{\"code\":");
        reveal_strlit("\"status\":{\"code\":");
    }
    let t1 = t0 + "],\"endTimeUnixNano\":"@ + q_end;
    let t2 = t1 + ",\"kind\":1,\"name\":"@ + q_name;
    let t3 = t2 + ",\"parentSpanId\":"@ + q_parent;
    let t4 = t3 + ",\"spanId\":"@ + q_span;
    let t5 = t4 + ",\"startTimeUnixNano\":"@ + q_start;
    let t6 = t5 + ",\"status\":"@ + status;
    let t7 = t6 + ",\"traceId\":"@ + q_trace;
    let f1 = "\"endTimeUnixNano\":"@ + q_end;
    let f2 = "\"name\":"@ + q_name;
    let kind = "\"kind\":1,"@;
    let f3 = "\"parentSpanId\":"@ + q_parent;
    let f4 = "\"spanId\":"@ + q_span;
    let f5 = "\"startTimeUnixNano\":"@ + q_start;
    let code = text::decimal(span.status.0 as nat);
    let f6 = "\"status\":{\"code\":"@ + code;
    let f7 = "\"traceId\":"@ + q_trace;
    a_field_is_a_part(t0, seq![']', ','], "\"endTimeUnixNano\":"@, q_end);
    a_field_is_a_part(t1, seq![','] + kind, "\"name\":"@, q_name);
    a_mark_is_a_part(t1, seq![','], kind, "\"name\":"@, q_name);
    a_field_is_a_part(t2, seq![','], "\"parentSpanId\":"@, q_parent);
    a_field_is_a_part(t3, seq![','], "\"spanId\":"@, q_span);
    a_field_is_a_part(t4, seq![','], "\"startTimeUnixNano\":"@, q_start);
    a_field_is_a_part(t6, seq![','], "\"traceId\":"@, q_trace);
    let told = match span.status.1 {
        Some(message) => ",\"message\":"@ + json::quoted(message),
        None => Seq::empty(),
    };
    assert(status == "{\"code\":"@ + code + told + "}"@);
    a_status_is_a_part(
        t5,
        ",\"status\":"@,
        "{\"code\":"@,
        seq![','],
        "\"status\":{\"code\":"@,
        code,
        told,
    );
    if span.status.1 is Some {
        let message = ",\"message\":"@ + json::quoted(span.status.1->0) + "}"@;
        a_part_stays(t6, ",\"traceId\":"@, message);
        a_part_stays(t6 + ",\"traceId\":"@, q_trace, message);
        a_part_stays(t7, "}"@, message);
    }
    a_part_stays_twice(t1, ",\"kind\":1,\"name\":"@, q_name, f1);
    a_part_stays_twice(t2, ",\"parentSpanId\":"@, q_parent, f1);
    a_part_stays_twice(t2, ",\"parentSpanId\":"@, q_parent, f2);
    a_part_stays_twice(t2, ",\"parentSpanId\":"@, q_parent, kind);
    a_part_stays_twice(t3, ",\"spanId\":"@, q_span, f1);
    a_part_stays_twice(t3, ",\"spanId\":"@, q_span, f2);
    a_part_stays_twice(t3, ",\"spanId\":"@, q_span, kind);
    a_part_stays_twice(t3, ",\"spanId\":"@, q_span, f3);
    a_part_stays_twice(t4, ",\"startTimeUnixNano\":"@, q_start, f1);
    a_part_stays_twice(t4, ",\"startTimeUnixNano\":"@, q_start, f2);
    a_part_stays_twice(t4, ",\"startTimeUnixNano\":"@, q_start, kind);
    a_part_stays_twice(t4, ",\"startTimeUnixNano\":"@, q_start, f3);
    a_part_stays_twice(t4, ",\"startTimeUnixNano\":"@, q_start, f4);
    a_part_stays_twice(t5, ",\"status\":"@, status, f1);
    a_part_stays_twice(t5, ",\"status\":"@, status, f2);
    a_part_stays_twice(t5, ",\"status\":"@, status, kind);
    a_part_stays_twice(t5, ",\"status\":"@, status, f3);
    a_part_stays_twice(t5, ",\"status\":"@, status, f4);
    a_part_stays_twice(t5, ",\"status\":"@, status, f5);
    a_part_stays_twice(t6, ",\"traceId\":"@, q_trace, f1);
    a_part_stays_twice(t6, ",\"traceId\":"@, q_trace, f2);
    a_part_stays_twice(t6, ",\"traceId\":"@, q_trace, kind);
    a_part_stays_twice(t6, ",\"traceId\":"@, q_trace, f3);
    a_part_stays_twice(t6, ",\"traceId\":"@, q_trace, f4);
    a_part_stays_twice(t6, ",\"traceId\":"@, q_trace, f5);
    a_part_stays_twice(t6, ",\"traceId\":"@, q_trace, f6);
    a_part_stays(t7, "}"@, f1);
    a_part_stays(t7, "}"@, f2);
    a_part_stays(t7, "}"@, kind);
    a_part_stays(t7, "}"@, f3);
    a_part_stays(t7, "}"@, f4);
    a_part_stays(t7, "}"@, f5);
    a_part_stays(t7, "}"@, f6);
    a_part_stays(t7, "}"@, f7);
    assert(payload::span_json(span) == t7 + "}"@);
}

/// A payload names the service and the scope with its version, and holds every
/// span as it is written, in order, with commas between them.
pub proof fn a_payload_holds_every_span(spans: Seq<SpanModel>, version: Seq<char>, i: int)
    ensures
        has_part(
            payload::payload_json(spans, version),
            "{\"key\":\"service.name\",\"value\":{\"stringValue\":\"qcg\"}}"@,
        ),
        has_part(
            payload::payload_json(spans, version),
            "{\"name\":\"qcg.harness\",\"version\":"@ + json::quoted(version) + "}"@,
        ),
        0 <= i < spans.len() ==> has_part(
            payload::payload_json(spans, version),
            payload::span_json(spans[i]),
        ),
        0 <= i < spans.len() - 1 ==> has_part(
            payload::payload_json(spans, version),
            payload::span_json(spans[i]) + ","@ + payload::span_json(spans[i + 1]),
        ),
{
    let whole = payload::payload_json(spans, version);
    let head =
        "{\"resourceSpans\":[{\"resource\":{\"attributes\":[{\"key\":\"service.name\",\"value\":{\"stringValue\":\"qcg\"}}]},\"scopeSpans\":[{\"scope\":{\"name\":\"qcg.harness\",\"version\":"@;
    let q = json::quoted(version);
    let items = payload::span_items(spans);
    let inner = payload::elements(items);
    let tail = "]}]}]}"@;
    let link = "},\"spans\":["@;
    let service = "{\"key\":\"service.name\",\"value\":{\"stringValue\":\"qcg\"}}"@;
    let scope = "{\"name\":\"qcg.harness\",\"version\":"@;
    the_payload_starts_with_its_service(q);
    a_part_stays_twice(head, q, link, service);
    a_part_stays_twice(head + q + link, inner, tail, service);
    a_part_stays_twice(head + q + link, inner, tail, scope + q + "}"@);
    assert(whole == head + q + link + inner + tail);
    if 0 <= i < spans.len() {
        an_element_stands_in_the_list(items, i);
        assert(items[i] == payload::span_json(spans[i]));
        a_part_is_led_to(head + q + link, inner, items[i]);
        a_part_stays(head + q + link + inner, tail, items[i]);
    }
    if 0 <= i < spans.len() - 1 {
        two_elements_stand_in_the_list(items, i);
        let pair = items[i] + ","@ + items[i + 1];
        assert(items[i + 1] == payload::span_json(spans[i + 1]));
        a_part_is_led_to(head + q + link, inner, pair);
        a_part_stays(head + q + link + inner, tail, pair);
    }
}

/// An attribute is written under its key, a text as a text and a number as a
/// text of digits under a name of its own.
pub proof fn an_attribute_is_written_by_its_kind(key: Seq<char>, value: Seq<char>, n: u64)
    ensures
        payload::attribute_json((key, AttributeModel::Text(value))) == "{\"key\":"@ + json::quoted(key)
            + ",\"value\":{\"stringValue\":"@ + json::quoted(value) + "}}"@,
        payload::attribute_json((key, AttributeModel::Int(n))) == "{\"key\":"@ + json::quoted(key)
            + ",\"value\":{\"intValue\":"@ + json::quoted(text::decimal(n as nat)) + "}}"@,
{
    assert(payload::attribute_json((key, AttributeModel::Text(value))) =~= "{\"key\":"@
        + json::quoted(key) + ",\"value\":{\"stringValue\":"@ + json::quoted(value) + "}}"@);
    assert(payload::attribute_json((key, AttributeModel::Int(n))) =~= "{\"key\":"@ + json::quoted(key)
        + ",\"value\":{\"intValue\":"@ + json::quoted(text::decimal(n as nat)) + "}}"@);
}

proof fn a_field_is_a_part(before: Seq<char>, mark: Seq<char>, name: Seq<char>, value: Seq<char>)
    ensures
        has_part(before + (mark + name) + value, name + value),
{
    assert(before + (mark + name) + value =~= (before + mark) + (name + value) + Seq::<
        char,
    >::empty());
}

proof fn a_mark_is_a_part(
    before: Seq<char>,
    mark: Seq<char>,
    kind: Seq<char>,
    name: Seq<char>,
    value: Seq<char>,
)
    ensures
        has_part(before + ((mark + kind) + name) + value, kind),
{
    assert(before + ((mark + kind) + name) + value =~= (before + mark) + kind + (name + value));
}

proof fn a_status_is_a_part(
    before: Seq<char>,
    lead: Seq<char>,
    brace: Seq<char>,
    mark: Seq<char>,
    label: Seq<char>,
    code: Seq<char>,
    told: Seq<char>,
)
    requires
        lead + brace == mark + label,
    ensures
        has_part(before + lead + (brace + code + told + "}"@), label + code),
        has_part(before + lead + (brace + code + told + "}"@), told + "}"@),
{
    let whole = before + lead + (brace + code + told + "}"@);
    assert(whole =~= before + (lead + brace) + code + told + "}"@);
    assert(before + (mark + label) + code + told + "}"@ =~= (before + mark) + (label + code) + (told
        + "}"@));
    assert(whole =~= (before + (lead + brace) + code) + (told + "}"@) + Seq::<char>::empty());
}

proof fn a_part_is_led_to(before: Seq<char>, body: Seq<char>, part: Seq<char>)
    requires
        has_part(body, part),
    ensures
        has_part(before + body, part),
{
    let (x, y) = choose|x: Seq<char>, y: Seq<char>| body == #[trigger] (x + part + y);
    assert(before + body =~= (before + x) + part + y);
}

proof fn the_payload_starts_with_its_service(version: Seq<char>)
    ensures
        ({
            let head =
                "{\"resourceSpans\":[{\"resource\":{\"attributes\":[{\"key\":\"service.name\",\"value\":{\"stringValue\":\"qcg\"}}]},\"scopeSpans\":[{\"scope\":{\"name\":\"qcg.harness\",\"version\":"@;
            &&& has_part(
                head,
                "{\"key\":\"service.name\",\"value\":{\"stringValue\":\"qcg\"}}"@,
            )
            &&& has_part(
                head + version + "},\"spans\":["@,
                "{\"name\":\"qcg.harness\",\"version\":"@ + version + "}"@,
            )
        }),
{
    let head =
        "{\"resourceSpans\":[{\"resource\":{\"attributes\":[{\"key\":\"service.name\",\"value\":{\"stringValue\":\"qcg\"}}]},\"scopeSpans\":[{\"scope\":{\"name\":\"qcg.harness\",\"version\":"@;
    let service = "{\"key\":\"service.name\",\"value\":{\"stringValue\":\"qcg\"}}"@;
    let scope = "{\"name\":\"qcg.harness\",\"version\":"@;
    let link = "},\"spans\":["@;
    assert(has_part(head, service)) by {
        reveal_strlit(
            "{\"resourceSpans\":[{\"resource\":{\"attributes\":[{\"key\":\"service.name\",\"value\":{\"stringValue\":\"qcg\"}}]},\"scopeSpans\":[{\"scope\":{\"name\":\"qcg.harness\",\"version\":",
        );
        reveal_strlit("{\"key\":\"service.name\",\"value\":{\"stringValue\":\"qcg\"}}");
        assert(head =~= head.take(45) + service + head.skip(45int + service.len()));
    }
    let m = head.len() - scope.len();
    assert(head =~= head.take(m) + scope) by {
        reveal_strlit(
            "{\"resourceSpans\":[{\"resource\":{\"attributes\":[{\"key\":\"service.name\",\"value\":{\"stringValue\":\"qcg\"}}]},\"scopeSpans\":[{\"scope\":{\"name\":\"qcg.harness\",\"version\":",
        );
        reveal_strlit("{\"name\":\"qcg.harness\",\"version\":");
    }
    assert(link =~= "}"@ + link.skip(1)) by {
        reveal_strlit("},\"spans\":[");
        reveal_strlit("}");
    }
    let (start, rest) = (head.take(m), link.skip(1));
    assert((start + scope) + version + ("}"@ + rest) =~= start + (scope + version + "}"@) + rest);
}

proof fn a_part_stays(body: Seq<char>, more: Seq<char>, part: Seq<char>)
    requires
        has_part(body, part),
    ensures
        has_part(body + more, part),
{
    let (x, y) = choose|x: Seq<char>, y: Seq<char>| body == #[trigger] (x + part + y);
    assert(body + more =~= x + part + (y + more));
}

proof fn a_part_stays_twice(body: Seq<char>, more: Seq<char>, again: Seq<char>, part: Seq<char>)
    requires
        has_part(body, part),
    ensures
        has_part(body + more + again, part),
{
    a_part_stays(body, more, part);
    a_part_stays(body + more, again, part);
}

proof fn an_element_stands_in_the_list(items: Seq<Seq<char>>, i: int)
    requires
        0 <= i < items.len(),
    ensures
        has_part(payload::elements(items), items[i]),
    decreases items.len(),
{
    let inner = payload::elements(items);
    if items.len() == 1 {
        assert(inner =~= Seq::<char>::empty() + items[0] + Seq::<char>::empty());
    } else if i == items.len() - 1 {
        assert(inner =~= (payload::elements(items.drop_last()) + ","@) + items[i] + Seq::<
            char,
        >::empty());
    } else {
        let front = items.drop_last();
        an_element_stands_in_the_list(front, i);
        let (x, y) = choose|x: Seq<char>, y: Seq<char>|
            payload::elements(front) == #[trigger] (x + front[i] + y);
        assert(inner =~= x + items[i] + (y + ","@ + items.last()));
    }
}

proof fn two_elements_stand_in_the_list(items: Seq<Seq<char>>, i: int)
    requires
        0 <= i < items.len() - 1,
    ensures
        has_part(payload::elements(items), items[i] + ","@ + items[i + 1]),
    decreases items.len(),
{
    let inner = payload::elements(items);
    let front = items.drop_last();
    let pair = items[i] + ","@ + items[i + 1];
    if i == items.len() - 2 {
        if front.len() == 1 {
            assert(payload::elements(front) == items[0]);
            assert(inner =~= Seq::<char>::empty() + pair + Seq::<char>::empty());
        } else {
            let earlier = payload::elements(front.drop_last()) + ","@;
            assert(payload::elements(front) == earlier + front.last());
            assert(inner =~= earlier + pair + Seq::<char>::empty());
        }
    } else {
        two_elements_stand_in_the_list(front, i);
        assert(front[i] == items[i] && front[i + 1] == items[i + 1]);
        let (x, y) = choose|x: Seq<char>, y: Seq<char>|
            payload::elements(front) == #[trigger] (x + pair + y);
        assert(inner =~= x + pair + (y + ","@ + items.last()));
    }
}

proof fn first_has(first: Seq<(Seq<char>, AttributeModel)>, pair: (Seq<char>, AttributeModel))
    requires
        first.len() == 3,
    ensures
        first.contains(pair) <==> first[0] == pair || first[1] == pair || first[2] == pair,
{
}

proof fn optional_has(key: Seq<char>, value: Option<String>, pair: (Seq<char>, AttributeModel))
    ensures
        spans::optional_attribute(key, value).contains(pair) <==> value is Some && pair == (
            key,
            AttributeModel::Text(value->0@),
        ),
{
    if value is Some {
        assert(spans::optional_attribute(key, value)[0] == (
            key,
            AttributeModel::Text(value->0@),
        ));
    }
}

proof fn sum_has(
    a: Seq<(Seq<char>, AttributeModel)>,
    b: Seq<(Seq<char>, AttributeModel)>,
    pair: (Seq<char>, AttributeModel),
)
    ensures
        (a + b).contains(pair) <==> a.contains(pair) || b.contains(pair),
{
    if a.contains(pair) {
        let i = choose|i: int| 0 <= i < a.len() && a[i] == pair;
        assert((a + b)[i] == pair);
    }
    if b.contains(pair) {
        let i = choose|i: int| 0 <= i < b.len() && b[i] == pair;
        assert((a + b)[a.len() + i] == pair);
    }
    if (a + b).contains(pair) {
        let i = choose|i: int| 0 <= i < (a + b).len() && (a + b)[i] == pair;
        if i < a.len() {
            assert(a[i] == pair);
        } else {
            assert(b[i - a.len()] == pair);
        }
    }
}

proof fn kinds_differ()
    ensures
        "step_finished"@ != "run_finished"@,
        "step_finished"@ != "run_error"@,
        "step_finished"@ != "run_canceled"@,
        "step_finished"@ != "run_interrupted"@,
        "run_finished"@ != "run_error"@,
        "run_finished"@ != "run_canceled"@,
        "run_finished"@ != "run_interrupted"@,
{
    reveal_strlit("step_finished");
    reveal_strlit("run_finished");
    reveal_strlit("run_error");
    reveal_strlit("run_canceled");
    reveal_strlit("run_interrupted");
    assert("step_finished"@[0] == 's');
    assert("run_finished"@[0] == 'r');
    assert("run_finished"@[4] == 'f');
    assert("run_canceled"@[4] == 'c');
}

proof fn empty_is_no_success()
    ensures
        ""@.len() == 0,
        "success"@.len() > 0,
        "repaired"@.len() > 0,
        "routed"@.len() > 0,
        "regenerated"@.len() > 0,
        "answered_on_fail"@.len() > 0,
        "failed"@.len() > 0,
        "check_failed"@.len() > 0,
        "repair_exhausted"@.len() > 0,
        "regenerate_exhausted"@.len() > 0,
        "recheck_failed"@.len() > 0,
        "error"@.len() > 0,
        "canceled"@.len() > 0,
        "cancelled"@.len() > 0,
        "interrupted"@.len() > 0,
        "skipped"@.len() > 0,
{
    reveal_strlit("");
    reveal_strlit("success");
    reveal_strlit("repaired");
    reveal_strlit("routed");
    reveal_strlit("regenerated");
    reveal_strlit("answered_on_fail");
    reveal_strlit("failed");
    reveal_strlit("check_failed");
    reveal_strlit("repair_exhausted");
    reveal_strlit("regenerate_exhausted");
    reveal_strlit("recheck_failed");
    reveal_strlit("error");
    reveal_strlit("canceled");
    reveal_strlit("cancelled");
    reveal_strlit("interrupted");
    reveal_strlit("skipped");
}

proof fn statuses_are_short()
    ensures
        "success"@.len() <= 40,
        "repaired"@.len() <= 40,
        "routed"@.len() <= 40,
        "regenerated"@.len() <= 40,
        "answered_on_fail"@.len() <= 40,
        "failed"@.len() <= 40,
        "check_failed"@.len() <= 40,
        "repair_exhausted"@.len() <= 40,
        "regenerate_exhausted"@.len() <= 40,
        "recheck_failed"@.len() <= 40,
        "error"@.len() <= 40,
        "canceled"@.len() <= 40,
        "cancelled"@.len() <= 40,
        "interrupted"@.len() <= 40,
        "skipped"@.len() <= 40,
{
    reveal_strlit("success");
    reveal_strlit("repaired");
    reveal_strlit("routed");
    reveal_strlit("regenerated");
    reveal_strlit("answered_on_fail");
    reveal_strlit("failed");
    reveal_strlit("check_failed");
    reveal_strlit("repair_exhausted");
    reveal_strlit("regenerate_exhausted");
    reveal_strlit("recheck_failed");
    reveal_strlit("error");
    reveal_strlit("canceled");
    reveal_strlit("cancelled");
    reveal_strlit("interrupted");
    reveal_strlit("skipped");
}

proof fn statuses_differ()
    ensures
        !otlp::step_succeeded("failed"@),
        !otlp::step_succeeded("check_failed"@),
        !otlp::step_succeeded("repair_exhausted"@),
        !otlp::step_succeeded("regenerate_exhausted"@),
        !otlp::step_succeeded("recheck_failed"@),
        !otlp::step_succeeded("error"@),
        !otlp::step_succeeded("canceled"@),
        !otlp::step_succeeded("cancelled"@),
        !otlp::step_succeeded("interrupted"@),
        !otlp::step_succeeded("skipped"@),
        !otlp::run_known_unsuccessful("repaired"@),
        !otlp::run_known_unsuccessful("routed"@),
        !otlp::run_known_unsuccessful("skipped"@),
        !otlp::run_known_unsuccessful("repair_exhausted"@),
        "repaired"@ != "success"@,
        "routed"@ != "success"@,
        "skipped"@ != "success"@,
        "repair_exhausted"@ != "success"@,
        "failed"@ != "success"@,
        "check_failed"@ != "success"@,
        "error"@ != "success"@,
        "canceled"@ != "success"@,
        "cancelled"@ != "success"@,
        "interrupted"@ != "success"@,
{
    assert(!otlp::step_succeeded("failed"@)) by {
        reveal_strlit("failed");
        assert("failed"@.len() == 6);
        reveal_strlit("success");
        assert("success"@.len() == 7);
        reveal_strlit("repaired");
        assert("repaired"@.len() == 8);
        reveal_strlit("routed");
        assert("routed"@.len() == 6);
        reveal_strlit("regenerated");
        assert("regenerated"@.len() == 11);
        reveal_strlit("answered_on_fail");
        assert("answered_on_fail"@.len() == 16);
        assert("failed"@[0] == 'f');
        assert("routed"@[0] == 'r');
    }
    assert(!otlp::step_succeeded("check_failed"@)) by {
        reveal_strlit("check_failed");
        assert("check_failed"@.len() == 12);
        reveal_strlit("success");
        assert("success"@.len() == 7);
        reveal_strlit("repaired");
        assert("repaired"@.len() == 8);
        reveal_strlit("routed");
        assert("routed"@.len() == 6);
        reveal_strlit("regenerated");
        assert("regenerated"@.len() == 11);
        reveal_strlit("answered_on_fail");
        assert("answered_on_fail"@.len() == 16);
    }
    assert(!otlp::step_succeeded("repair_exhausted"@)) by {
        reveal_strlit("repair_exhausted");
        assert("repair_exhausted"@.len() == 16);
        reveal_strlit("success");
        assert("success"@.len() == 7);
        reveal_strlit("repaired");
        assert("repaired"@.len() == 8);
        reveal_strlit("routed");
        assert("routed"@.len() == 6);
        reveal_strlit("regenerated");
        assert("regenerated"@.len() == 11);
        reveal_strlit("answered_on_fail");
        assert("answered_on_fail"@.len() == 16);
        assert("repair_exhausted"@[0] == 'r');
        assert("answered_on_fail"@[0] == 'a');
    }
    assert(!otlp::step_succeeded("regenerate_exhausted"@)) by {
        reveal_strlit("regenerate_exhausted");
        assert("regenerate_exhausted"@.len() == 20);
        reveal_strlit("success");
        assert("success"@.len() == 7);
        reveal_strlit("repaired");
        assert("repaired"@.len() == 8);
        reveal_strlit("routed");
        assert("routed"@.len() == 6);
        reveal_strlit("regenerated");
        assert("regenerated"@.len() == 11);
        reveal_strlit("answered_on_fail");
        assert("answered_on_fail"@.len() == 16);
    }
    assert(!otlp::step_succeeded("recheck_failed"@)) by {
        reveal_strlit("recheck_failed");
        assert("recheck_failed"@.len() == 14);
        reveal_strlit("success");
        assert("success"@.len() == 7);
        reveal_strlit("repaired");
        assert("repaired"@.len() == 8);
        reveal_strlit("routed");
        assert("routed"@.len() == 6);
        reveal_strlit("regenerated");
        assert("regenerated"@.len() == 11);
        reveal_strlit("answered_on_fail");
        assert("answered_on_fail"@.len() == 16);
    }
    assert(!otlp::step_succeeded("error"@)) by {
        reveal_strlit("error");
        assert("error"@.len() == 5);
        reveal_strlit("success");
        assert("success"@.len() == 7);
        reveal_strlit("repaired");
        assert("repaired"@.len() == 8);
        reveal_strlit("routed");
        assert("routed"@.len() == 6);
        reveal_strlit("regenerated");
        assert("regenerated"@.len() == 11);
        reveal_strlit("answered_on_fail");
        assert("answered_on_fail"@.len() == 16);
    }
    assert(!otlp::step_succeeded("canceled"@)) by {
        reveal_strlit("canceled");
        assert("canceled"@.len() == 8);
        reveal_strlit("success");
        assert("success"@.len() == 7);
        reveal_strlit("repaired");
        assert("repaired"@.len() == 8);
        reveal_strlit("routed");
        assert("routed"@.len() == 6);
        reveal_strlit("regenerated");
        assert("regenerated"@.len() == 11);
        reveal_strlit("answered_on_fail");
        assert("answered_on_fail"@.len() == 16);
        assert("canceled"@[0] == 'c');
        assert("repaired"@[0] == 'r');
    }
    assert(!otlp::step_succeeded("cancelled"@)) by {
        reveal_strlit("cancelled");
        assert("cancelled"@.len() == 9);
        reveal_strlit("success");
        assert("success"@.len() == 7);
        reveal_strlit("repaired");
        assert("repaired"@.len() == 8);
        reveal_strlit("routed");
        assert("routed"@.len() == 6);
        reveal_strlit("regenerated");
        assert("regenerated"@.len() == 11);
        reveal_strlit("answered_on_fail");
        assert("answered_on_fail"@.len() == 16);
    }
    assert(!otlp::step_succeeded("interrupted"@)) by {
        reveal_strlit("interrupted");
        assert("interrupted"@.len() == 11);
        reveal_strlit("success");
        assert("success"@.len() == 7);
        reveal_strlit("repaired");
        assert("repaired"@.len() == 8);
        reveal_strlit("routed");
        assert("routed"@.len() == 6);
        reveal_strlit("regenerated");
        assert("regenerated"@.len() == 11);
        reveal_strlit("answered_on_fail");
        assert("answered_on_fail"@.len() == 16);
        assert("interrupted"@[0] == 'i');
        assert("regenerated"@[0] == 'r');
    }
    assert(!otlp::step_succeeded("skipped"@)) by {
        reveal_strlit("skipped");
        assert("skipped"@.len() == 7);
        reveal_strlit("success");
        assert("success"@.len() == 7);
        reveal_strlit("repaired");
        assert("repaired"@.len() == 8);
        reveal_strlit("routed");
        assert("routed"@.len() == 6);
        reveal_strlit("regenerated");
        assert("regenerated"@.len() == 11);
        reveal_strlit("answered_on_fail");
        assert("answered_on_fail"@.len() == 16);
        assert("skipped"@[1] == 'k');
        assert("success"@[1] == 'u');
    }
    assert(!otlp::run_known_unsuccessful("repaired"@)) by {
        reveal_strlit("repaired");
        assert("repaired"@.len() == 8);
        reveal_strlit("failed");
        assert("failed"@.len() == 6);
        reveal_strlit("check_failed");
        assert("check_failed"@.len() == 12);
        reveal_strlit("error");
        assert("error"@.len() == 5);
        reveal_strlit("canceled");
        assert("canceled"@.len() == 8);
        reveal_strlit("cancelled");
        assert("cancelled"@.len() == 9);
        reveal_strlit("interrupted");
        assert("interrupted"@.len() == 11);
        assert("repaired"@[0] == 'r');
        assert("canceled"@[0] == 'c');
    }
    assert(!otlp::run_known_unsuccessful("routed"@)) by {
        reveal_strlit("routed");
        assert("routed"@.len() == 6);
        reveal_strlit("failed");
        assert("failed"@.len() == 6);
        reveal_strlit("check_failed");
        assert("check_failed"@.len() == 12);
        reveal_strlit("error");
        assert("error"@.len() == 5);
        reveal_strlit("canceled");
        assert("canceled"@.len() == 8);
        reveal_strlit("cancelled");
        assert("cancelled"@.len() == 9);
        reveal_strlit("interrupted");
        assert("interrupted"@.len() == 11);
        assert("routed"@[0] == 'r');
        assert("failed"@[0] == 'f');
    }
    assert(!otlp::run_known_unsuccessful("skipped"@)) by {
        reveal_strlit("skipped");
        assert("skipped"@.len() == 7);
        reveal_strlit("failed");
        assert("failed"@.len() == 6);
        reveal_strlit("check_failed");
        assert("check_failed"@.len() == 12);
        reveal_strlit("error");
        assert("error"@.len() == 5);
        reveal_strlit("canceled");
        assert("canceled"@.len() == 8);
        reveal_strlit("cancelled");
        assert("cancelled"@.len() == 9);
        reveal_strlit("interrupted");
        assert("interrupted"@.len() == 11);
    }
    assert(!otlp::run_known_unsuccessful("repair_exhausted"@)) by {
        reveal_strlit("repair_exhausted");
        assert("repair_exhausted"@.len() == 16);
        reveal_strlit("failed");
        assert("failed"@.len() == 6);
        reveal_strlit("check_failed");
        assert("check_failed"@.len() == 12);
        reveal_strlit("error");
        assert("error"@.len() == 5);
        reveal_strlit("canceled");
        assert("canceled"@.len() == 8);
        reveal_strlit("cancelled");
        assert("cancelled"@.len() == 9);
        reveal_strlit("interrupted");
        assert("interrupted"@.len() == 11);
    }
    assert("repaired"@ != "success"@) by {
        reveal_strlit("repaired");
        assert("repaired"@.len() == 8);
        reveal_strlit("success");
        assert("success"@.len() == 7);
    }
    assert("routed"@ != "success"@) by {
        reveal_strlit("routed");
        assert("routed"@.len() == 6);
        reveal_strlit("success");
        assert("success"@.len() == 7);
    }
    assert("skipped"@ != "success"@) by {
        reveal_strlit("skipped");
        assert("skipped"@.len() == 7);
        reveal_strlit("success");
        assert("success"@.len() == 7);
        assert("skipped"@[1] == 'k');
        assert("success"@[1] == 'u');
    }
    assert("repair_exhausted"@ != "success"@) by {
        reveal_strlit("repair_exhausted");
        assert("repair_exhausted"@.len() == 16);
        reveal_strlit("success");
        assert("success"@.len() == 7);
    }
    assert("failed"@ != "success"@) by {
        reveal_strlit("failed");
        assert("failed"@.len() == 6);
        reveal_strlit("success");
        assert("success"@.len() == 7);
    }
    assert("check_failed"@ != "success"@) by {
        reveal_strlit("check_failed");
        assert("check_failed"@.len() == 12);
        reveal_strlit("success");
        assert("success"@.len() == 7);
    }
    assert("error"@ != "success"@) by {
        reveal_strlit("error");
        assert("error"@.len() == 5);
        reveal_strlit("success");
        assert("success"@.len() == 7);
    }
    assert("canceled"@ != "success"@) by {
        reveal_strlit("canceled");
        assert("canceled"@.len() == 8);
        reveal_strlit("success");
        assert("success"@.len() == 7);
    }
    assert("cancelled"@ != "success"@) by {
        reveal_strlit("cancelled");
        assert("cancelled"@.len() == 9);
        reveal_strlit("success");
        assert("success"@.len() == 7);
    }
    assert("interrupted"@ != "success"@) by {
        reveal_strlit("interrupted");
        assert("interrupted"@.len() == 11);
        reveal_strlit("success");
        assert("success"@.len() == 7);
    }
}

} // verus!
