//! Span export: configuration, spans, and what collectors reply.
use qcg_server::environment::Variable;
use qcg_server::exporter::{
    outcome_of, parse_partial_success, read_bounded_body, CollectorReply, ExportProgress,
    ExportStep,
};
use qcg_server::json::Json;
use qcg_server::otlp::{
    check_endpoint, read_record, reason_message, resolve_otlp_config, span_status_for_event,
    TraceRecord,
};
use qcg_server::payload::trace_payload;
use qcg_server::spans::{event_spans, nanos_of, unix_nano};
use serde_json::Value;

fn some(value: &str) -> Option<String> {
    Some(value.to_string())
}

fn record(document: &str) -> TraceRecord {
    read_record(document.as_bytes())
}

/// A record with an identity and a time, and these further members.
fn identified(kind: &str, seq: u64, second: u64, span: &str, more: &str) -> TraceRecord {
    record(&format!(
        "{{\"t\":\"{kind}\",\"seq\":{seq},\"ts\":\"2026-01-01T00:00:0{second}Z\",\"run_id\":\"run-1\",\"trace_id\":\"{}\",\"span_id\":\"{}\"{more}}}",
        "ab".repeat(16),
        span.repeat(8)
    ))
}

fn payload_of(records: &Vec<TraceRecord>) -> Value {
    let document =
        trace_payload(&"run-1".to_string(), records, "1.2.3").expect("records should map");
    serde_json::from_str(&document).expect("the payload is a document")
}

fn spans_of(payload: &Value) -> &Vec<Value> {
    payload["resourceSpans"][0]["scopeSpans"][0]["spans"].as_array().expect("spans")
}

fn has_attribute(span: &Value, key: &str, value: &str) -> bool {
    span["attributes"]
        .as_array()
        .expect("attributes")
        .iter()
        .any(|attribute| attribute["key"] == key && attribute["value"]["stringValue"] == value)
}

#[test]
fn endpoint_and_interval_are_resolved_strictly() {
    let text = |value: &str| Variable::Text(value.to_string());
    assert!(resolve_otlp_config(&Variable::Unset, &Variable::Unset).expect("unset endpoint must resolve").is_none());
    let error = resolve_otlp_config(&Variable::Unset, &text("1000")).expect_err("a lone interval must refuse boot");
    assert!(error.contains("QCG_OTLP_INTERVAL_MS"), "{error}");
    let error = resolve_otlp_config(&text("ftp://collector"), &Variable::Unset)
        .expect_err("non-http schemes must refuse boot");
    assert!(error.contains("scheme"), "{error}");
    let endpoint = text("https://collector.example/v1/traces");
    let config = resolve_otlp_config(&endpoint, &Variable::Unset)
        .expect("valid endpoint must resolve")
        .expect("an export");
    assert_eq!(config.endpoint, "https://collector.example/v1/traces");
    assert_eq!(config.interval_millis, 5_000);
    assert!(resolve_otlp_config(&endpoint, &text("99")).is_err(), "sub-100ms cadence must refuse");
    let config = resolve_otlp_config(&endpoint, &text("100")).expect("resolves").expect("an export");
    assert_eq!(config.interval_millis, 100);
    let error = resolve_otlp_config(&text("no url"), &Variable::Unset).expect_err("no URL");
    assert!(error.starts_with("invalid QCG_OTLP_ENDPOINT `no url`: "), "{error}");
    for (endpoint, interval, named) in [
        (Variable::NotText, Variable::Unset, "QCG_OTLP_ENDPOINT"),
        (text("https://collector.example"), Variable::NotText, "QCG_OTLP_INTERVAL_MS"),
    ] {
        assert_eq!(
            resolve_otlp_config(&endpoint, &interval),
            Err(format!("invalid {named}: must be UTF-8 text"))
        );
    }
    assert_eq!(
        resolve_otlp_config(&Variable::Unset, &Variable::NotText),
        resolve_otlp_config(&Variable::Unset, &text("1000")),
        "a lone interval is incomplete, whatever it holds"
    );
}

#[test]
fn endpoints_need_http_and_a_host() {
    assert_eq!(check_endpoint("x", Ok(("http".to_string(), true))), Ok(()));
    assert_eq!(
        check_endpoint("x", Ok(("http".to_string(), false))),
        Err("invalid QCG_OTLP_ENDPOINT `x`: a host is required".to_string())
    );
    assert_eq!(
        check_endpoint("x", Err("bad".to_string())),
        Err("invalid QCG_OTLP_ENDPOINT `x`: bad".to_string())
    );
}

#[test]
fn trace_payload_maps_records_to_event_spans() {
    let parent = "cd".repeat(8);
    let events = vec![
        identified("run_started", 1, 0, "cd", ""),
        identified(
            "step_finished",
            2,
            1,
            "ef",
            &format!(",\"parent_span_id\":\"{parent}\",\"node\":\"build\""),
        ),
    ];
    let payload = payload_of(&events);
    let spans = spans_of(&payload);
    assert_eq!(spans.len(), 2);
    assert_eq!(spans[0]["name"], "qcg.event run_started");
    assert_eq!(spans[0]["parentSpanId"], "");
    assert_eq!(spans[1]["parentSpanId"], parent);
    assert_eq!(spans[1]["startTimeUnixNano"], "1767225601000000000");
    assert_eq!(spans[1]["endTimeUnixNano"], "1767225601000000001");
    assert!(has_attribute(&spans[1], "qcg.node.id", "build"));
    assert!(has_attribute(&spans[1], "qcg.run.id", "run-1"));
    assert_eq!(spans[1]["attributes"][2]["key"], "qcg.event.seq");
    assert_eq!(spans[1]["attributes"][2]["value"]["intValue"], "2");
    assert_eq!(payload["resourceSpans"][0]["scopeSpans"][0]["scope"]["name"], "qcg.harness");
    assert_eq!(payload["resourceSpans"][0]["scopeSpans"][0]["scope"]["version"], "1.2.3");
}

#[test]
fn payloads_are_written_as_a_serialiser_writes_them() {
    let odd = "q\"b\\n\nt\tr\rb\u{8}f\u{c}u\u{1}\u{1f}d\u{7f}\u{e9}\u{1f600}/";
    let quoted = serde_json::to_string(odd).expect("serialises");
    let records = vec![
        identified("run_finished", 1, 0, "cd", &format!(",\"status\":\"failed\",\"error\":{quoted}")),
        identified("step_finished", 2, 1, "ef", ",\"status\":\"success\""),
    ];
    let document = trace_payload(&"run-1".to_string(), &records, odd).expect("records should map");
    let parsed: Value = serde_json::from_str(&document).expect("the payload is a document");
    assert_eq!(serde_json::to_string(&parsed).expect("serialises"), document);
    assert_eq!(spans_of(&parsed)[0]["status"]["message"], odd);
    assert!(spans_of(&parsed)[1]["status"].get("message").is_none());
    let empty = trace_payload(&"run-1".to_string(), &Vec::new(), "1").expect("nothing to map");
    assert_eq!(
        empty,
        "{\"resourceSpans\":[{\"resource\":{\"attributes\":[{\"key\":\"service.name\",\"value\":{\"stringValue\":\"qcg\"}}]},\"scopeSpans\":[{\"scope\":{\"name\":\"qcg.harness\",\"version\":\"1\"},\"spans\":[]}]}]}"
    );
}

#[test]
fn trace_payload_rejects_records_without_identity() {
    let events = vec![record("{\"t\":\"run_started\"}")];
    let error =
        trace_payload(&"run-1".to_string(), &events, "1").expect_err("identity is required");
    assert!(error.contains("trace_id"), "{error}");
    for (document, detail) in [
        ("{}", "record kind is required"),
        ("{\"t\":\"k\",\"trace_id\":\"a\"}", "record `k` carries no span_id"),
        ("{\"t\":\"k\",\"trace_id\":\"a\",\"span_id\":\"b\"}", "record `k` carries no seq"),
        (
            "{\"t\":\"k\",\"trace_id\":\"a\",\"span_id\":\"b\",\"seq\":1}",
            "record `k` carries no timestamp",
        ),
    ] {
        let refused = event_spans(&"run-1".to_string(), &vec![record(document)]);
        assert_eq!(refused.expect_err("incomplete"), detail);
    }
}

#[test]
fn failed_outcomes_export_as_error_not_ok() {
    let reason = ",\"reason\":{\"code\":\"execution_failed\",\"message\":\"boom\"}";
    let events = vec![
        identified("run_finished", 1, 0, "cd", &format!(",\"status\":\"failed\"{reason}")),
        identified(
            "step_finished",
            2,
            1,
            "ef",
            &format!(",\"node\":\"build\",\"status\":\"failed\"{reason}"),
        ),
        identified(
            "step_finished",
            3,
            2,
            "ab",
            ",\"node\":\"check\",\"status\":\"check_failed\"",
        ),
        identified("run_finished", 4, 3, "aa", ",\"status\":\"success\""),
    ];
    let payload = payload_of(&events);
    let spans = spans_of(&payload);
    assert_eq!(spans[0]["status"]["code"], 2, "failed run must be ERROR");
    assert_eq!(spans[1]["status"]["code"], 2, "failed step must be ERROR");
    assert_eq!(spans[2]["status"]["code"], 2, "check_failed must be ERROR");
    assert_eq!(spans[3]["status"]["code"], 1, "success stays OK");
    assert_eq!(spans[0]["status"]["message"], "execution_failed: boom");
    assert!(
        has_attribute(&spans[0], "qcg.status", "failed"),
        "original status must be preserved"
    );
    assert!(
        has_attribute(&spans[0], "qcg.reason.code", "execution_failed"),
        "original reason must be preserved"
    );
}

#[test]
fn structured_reasons_are_read_from_the_document() {
    let record = read_record(br#"{"t":"run_finished","status":"failed","reason":{"code":"c","message":"m"}}"#);
    assert_eq!(record.reason, None);
    assert_eq!(reason_message(&record), some("c: m"));
    let record = read_record(br#"{"t":"run_error","reason":"plain","error":"e"}"#);
    assert_eq!(reason_message(&record), some("plain"));
    let record = read_record(br#"{"t":"run_error","error":"e"}"#);
    assert_eq!(reason_message(&record), some("e"));
    assert_eq!(span_status_for_event("run_error", &record), (2, some("e")));
    assert_eq!(read_record(b"not json").kind, None);
}

#[test]
fn cancel_and_interrupt_export_as_error_with_cause() {
    for status in ["canceled", "interrupted"] {
        let events =
            vec![identified("run_finished", 1, 0, "cd", &format!(",\"status\":\"{status}\""))];
        let payload = payload_of(&events);
        let span = &spans_of(&payload)[0];
        assert_eq!(span["status"]["code"], 2, "{status} must not be OK");
        assert_eq!(span["status"]["message"], status);
    }
    let unknown = record("{\"t\":\"run_finished\",\"status\":\"odd\"}");
    assert_eq!(
        span_status_for_event("run_finished", &unknown),
        (2, some("run_finished status=odd"))
    );
    let missing = record("{\"t\":\"step_finished\"}");
    assert_eq!(
        span_status_for_event("step_finished", &missing),
        (2, some("step_finished without status"))
    );
}

#[test]
fn timestamps_become_nanoseconds() {
    assert_eq!(unix_nano("1970-01-01T00:00:01.5Z"), Ok(1_500_000_000));
    assert_eq!(nanos_of("t", Ok((2, 3))), Ok(2_000_000_003));
    assert_eq!(
        nanos_of("t", Ok((-1, 0))),
        Err("record timestamp `t` predates the Unix epoch".to_string())
    );
    assert_eq!(
        nanos_of("t", Err("bad".to_string())),
        Err("invalid record timestamp `t`: bad".to_string())
    );
    assert!(unix_nano("yesterday").is_err());
}

#[test]
fn partial_success_is_observed_not_full_success() {
    let outcome = parse_partial_success(
        br#"{"partialSuccess":{"rejectedSpans":"3","errorMessage":"quota"}}"#,
    );
    assert_eq!(outcome.rejected_spans, 3);
    assert_eq!(outcome.error_message, "quota");
    let full = parse_partial_success(b"");
    assert_eq!(full.rejected_spans, 0);
    let snake = parse_partial_success(br#"{"partial_success":{"rejected_spans":2}}"#);
    assert_eq!(snake.rejected_spans, 2);
    let logs = parse_partial_success(br#"{"logsPartialSuccess":{"rejectedLogRecords":4}}"#);
    assert_eq!(logs.rejected_log_records, 4);
    assert_eq!(parse_partial_success(b"boom").rejected_spans, 0);
}

#[test]
fn replies_are_judged_field_by_field() {
    let number = |n: i64| Some(Json::Number { unsigned: None, signed: Some(n) });
    let outcome = outcome_of(CollectorReply {
        rejected_spans: Some(Json::Text("-3".to_string())),
        error_message: Some(Json::Other),
        rejected_log_records: number(7),
    });
    assert_eq!((outcome.rejected_spans, outcome.rejected_log_records), (0, 7));
    assert_eq!(outcome.error_message, "");
    assert_eq!(read_bounded_body(6, 4, 10), Ok(10));
    assert_eq!(read_bounded_body(7, 4, 10), Err("collector response exceeded 10 bytes".to_string()));
}

#[test]
fn exported_records_are_not_exported_again() {
    let mut progress = ExportProgress::new();
    let run = "run-1".to_string();
    let seqs = vec![Some(1), None, Some(3), Some(2)];
    match progress.plan(&run, false, &seqs) {
        ExportStep::Export { batch, max_seq } => {
            assert_eq!(batch, vec![0, 2, 3]);
            assert_eq!(max_seq, 3);
        }
        other => panic!("new records are exported, got {other:?}"),
    }
    progress.exported(&run, false, 3, false);
    assert!(matches!(progress.plan(&run, false, &seqs), ExportStep::Export { .. }));
    progress.exported(&run, false, 3, true);
    assert!(matches!(progress.plan(&run, false, &seqs), ExportStep::Skip));
    assert!(!progress.skips("run-1"));
    let more = vec![Some(4)];
    assert!(matches!(progress.plan(&run, true, &more), ExportStep::Export { .. }));
    progress.exported(&run, true, 4, false);
    assert!(!progress.skips("run-1"), "a batch that was not taken is not forgotten");
    progress.exported(&run, true, 4, true);
    assert!(progress.skips("run-1"), "an ended run that was taken needs no further look");
    progress.end_tick();
    assert!(progress.skips("run-1"));
}
