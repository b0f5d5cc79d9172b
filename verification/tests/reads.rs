//! Reads: validators, artifacts, streams, journals, lists and scrapes.
use qcg_server::artifact::{
    artifacts_zip_head, asset_path, begin_artifact_read, bundle_head,
    check_artifact_size, content_disposition_attachment, content_type_for_name,
    generator_asset_head, read_artifact, reject_unsafe_generator_asset_path, unsafe_generator_asset_path,
    verify_artifact_measurement, Artifact, ArtifactMeter,
};
use qcg_server::digest::digest_hex;
use qcg_server::error::ApiHttpError;
use qcg_server::etag::{
    body_etag, conditional_read, conditional_response, conditional_response_with_etag,
    current_opaque_tag, generator_etag, if_none_match_matches, json_response_with_etag,
    parse_if_none_match, revision_etag, weak_etag, Head, IfNoneMatch, Reply,
};
use qcg_server::events::{
    drain_frames, is_terminal_event_kind, parse_last_event_id, EventStream, RunEvent,
};
use qcg_server::journal::{
    begin_journal_stream, check_journal_size, decode, journal_delivery, journal_read_bound,
    merge_record_streams, merge_records, read_journal, JournalDelivery, Record,
};
use qcg_server::listing::{
    check_list_query, list_runs, plan_list, ListPlan, PageBounds, RunItem, RunListQuery,
};
use qcg_server::metrics::{
    count_names, escape_prometheus_label, metrics, metrics_content_type, top_generator_runs,
    RunFact, RunPhase, METRICS_GENERATOR_LIMIT,
};

fn snapshot(queue_position: u32, seq: u32) -> Vec<u8> {
    format!(
        "{{\"run_id\":\"run-etag\",\"state\":\"queued\",\"seq\":{seq},\"generator_id\":\"gen\",\"queue_position\":{queue_position}}}"
    )
    .into_bytes()
}

fn header<'a>(head: &'a Head, name: &str) -> Option<&'a str> {
    head.headers.iter().find(|(key, _)| *key == name).map(|(_, value)| value.as_str())
}

fn conditional(value: Option<&str>, body: &[u8]) -> Result<Reply, ApiHttpError> {
    conditional_response(value.map(str::as_bytes), body.to_vec(), "application/json")
}

#[test]
fn terminal_kinds_match_api() {
    for kind in ["run_finished", "run_error", "run_canceled", "run_interrupted"] {
        assert!(is_terminal_event_kind(kind), "`{kind}` must be a terminal kind");
    }
    for kind in ["run_started", "step_finished", "stream_error", "shutdown", ""] {
        assert!(!is_terminal_event_kind(kind), "`{kind}` must not be a terminal kind");
    }
}

#[test]
fn conditional_json_star_matches_any_existing_snapshot() {
    let body = snapshot(2, 3);
    assert_eq!(conditional(Some("*"), &body).expect("conditional").head.status, 304);
    let response = conditional(Some("W/\"deadbeef\""), &body).expect("conditional");
    assert_eq!(response.head.status, 200);
    assert_eq!(response.body, body);
}

#[test]
fn body_etag_is_the_exact_body_digest() {
    let first = body_etag(&snapshot(2, 7));
    assert_eq!(first, body_etag(&snapshot(2, 7)));
    assert_ne!(first, body_etag(&snapshot(1, 7)), "a queue-position move must move the validator");
    assert_ne!(first, body_etag(&snapshot(2, 8)), "a seq move must move the validator");
    assert!(first.starts_with("W/\"") && first.ends_with('"'));
    assert_eq!(
        body_etag(b"abc"),
        "W/\"ba7816bf8f01cfea414140de5dae2223b00361a396177a9cb410ff61f20015ad\""
    );
}

#[test]
fn snapshot_etag_moves_with_queue_revision_through_single_entry_point() {
    let (before, after) = (snapshot(2, 7), snapshot(1, 7));
    let etag_before = body_etag(&before);
    assert_ne!(etag_before, body_etag(&after));
    assert_eq!(
        conditional(Some(&etag_before), &after).expect("conditional").head.status,
        200,
        "a changed queue position must return the updated body, not 304"
    );
    let unchanged = conditional(Some(&body_etag(&after)), &after).expect("conditional");
    assert_eq!(unchanged.head.status, 304, "an unchanged snapshot must reuse the conditional response");
    assert!(unchanged.body.is_empty());
    assert_eq!(header(&unchanged.head, "etag"), Some(body_etag(&after).as_str()));
}

#[test]
fn streaming_bodies_carry_no_validator_and_pin_the_snapshot_alternative() {
    assert!(
        body_etag(&snapshot(1, 7)).starts_with("W/\""),
        "the snapshot alternative must carry a validator"
    );
    let bundle = bundle_head("run-1");
    let zip = artifacts_zip_head("run-1");
    assert!(
        header(&bundle, "etag").is_none() && header(&zip, "etag").is_none(),
        "streaming bundle/zip must carry no validator; use the snapshot ETag"
    );
    assert_eq!(
        header(&bundle, "content-disposition"),
        Some("attachment; filename=\"run-1-bundle.zip\"")
    );
    assert_eq!(
        header(&zip, "content-disposition"),
        Some("attachment; filename=\"run-1-artifacts.zip\"")
    );
    assert_eq!(header(&zip, "content-type"), Some("application/zip"));
}

#[test]
fn bounded_and_unbounded_journal_validators_are_unified() {
    let bounded = b"{\"seq\":1}\n{\"seq\":2}\n".to_vec();
    let etag = body_etag(&bounded);
    assert!(etag.starts_with("W/\""));
    let response =
        conditional_response(Some(etag.as_bytes()), bounded, "application/x-ndjson").expect("conditional");
    assert_eq!(response.head.status, 304);
    let revision = weak_etag(&format!("{}-{}", 128u64, 1_700_000_000u64));
    assert!(revision.starts_with("W/\""));
    assert_ne!(revision, weak_etag(&format!("{}-{}", 129u64, 1_700_000_000u64)));
    assert_eq!(revision, revision_etag(128, 1_700_000_000));
    let head = begin_journal_stream(None, 128, 1_700_000_000).expect("streams");
    assert_eq!(head.status, 200);
    assert_eq!(header(&head, "etag"), Some(revision.as_str()));
    let head = begin_journal_stream(Some(revision.as_bytes()), 128, 1_700_000_000).expect("cached");
    assert_eq!(head.status, 304);
}

#[test]
fn conditional_json_handles_lists_and_weak_comparison() {
    let body = snapshot(1, 7);
    let etag = body_etag(&body);
    let strong = etag.trim_start_matches("W/").to_string();
    let status = |value: &str| conditional(Some(value), &body).expect("conditional").head.status;
    assert_eq!(status(&etag), 304);
    assert_eq!(status(&format!("W/{strong}")), 304);
    assert_eq!(status(&strong), 304);
    assert_eq!(status(&format!("W/\"deadbeef\", {etag}")), 304);
    assert_eq!(status(&format!("W/\"deadbeef\", W/{strong}")), 304);
    assert_eq!(status("*"), 304);
    assert_eq!(status("W/\"deadbeef\", W/\"feedface\""), 200);
    for bad in [
        "",
        ",",
        "W/\"deadbeef\",",
        ", W/\"deadbeef\"",
        "*, W/\"deadbeef\"",
        "w/\"deadbeef\"",
        "deadbeef",
        "W/deadbeef",
        "W/\"\"",
        "W/\"a\"b\"",
    ] {
        let error = conditional(Some(bad), &body).expect_err("malformed validator must fail");
        assert_eq!(error.problem.status, 400, "malformed validator `{bad}` must be 400");
    }
    assert_eq!(
        conditional_response(Some(&[0xff]), body.clone(), "application/json")
            .expect_err("not text")
            .problem
            .detail,
        "If-None-Match must be valid ASCII"
    );
    assert_eq!(conditional(None, &body).expect("unconditional").head.status, 200);
}

#[test]
fn preconditions_are_parsed_and_compared() {
    match parse_if_none_match(Some(b" \"a\" , W/\"b\"")).expect("a list") {
        IfNoneMatch::Tags(tags) => assert_eq!(tags, vec!["a".to_string(), "b".to_string()]),
        other => panic!("expected tags, got {other:?}"),
    }
    assert!(matches!(parse_if_none_match(None).expect("absent"), IfNoneMatch::Absent));
    assert!(matches!(parse_if_none_match(Some(b" * ")).expect("star"), IfNoneMatch::Star));
    let listed = IfNoneMatch::Tags(vec!["a".to_string()]);
    assert!(if_none_match_matches(&listed, "a"));
    assert!(!if_none_match_matches(&listed, "b"));
    assert!(!if_none_match_matches(&IfNoneMatch::Absent, "a"));
    assert!(if_none_match_matches(&IfNoneMatch::Star, "anything"));
    assert_eq!(current_opaque_tag("W/\"abc\""), "abc");
    assert_eq!(current_opaque_tag(" \"abc\" "), "abc");
    assert_eq!(current_opaque_tag("abc"), "abc");
}

#[test]
fn replies_carry_their_headers() {
    let tag = weak_etag("v");
    let reply = conditional_response_with_etag(None, b"x".to_vec(), "text/plain", &tag).expect("full");
    assert_eq!(header(&reply.head, "content-type"), Some("text/plain"));
    assert_eq!(header(&reply.head, "etag"), Some("W/\"v\""));
    assert_eq!(header(&reply.head, "cache-control"), Some("no-store"));
    let created = json_response_with_etag(201, b"{}".to_vec(), Some("/api/runs/r".to_string()));
    assert_eq!(created.head.status, 201);
    assert_eq!(header(&created.head, "location"), Some("/api/runs/r"));
    assert_eq!(header(&created.head, "etag"), Some(body_etag(b"{}").as_str()));
    assert_eq!(
        generator_etag(b"abc"),
        "W/\"generator-ba7816bf8f01cfea414140de5dae2223b00361a396177a9cb410ff61f20015ad\""
    );
    let head = conditional_read(Some(b"\"v\""), "text/plain", &tag).expect("conditional");
    assert_eq!(head.status, 304);
}

#[test]
fn asset_content_type_is_specific_when_known_and_binary_when_unknown() {
    assert_eq!(content_type_for_name("module.wasm"), "application/wasm");
    assert_eq!(content_type_for_name("font.woff2"), "font/woff2");
    assert_eq!(content_type_for_name("README"), "application/octet-stream");
    assert_eq!(content_type_for_name("data.weird"), "application/octet-stream");
    assert_eq!(content_type_for_name("a/b.tar.JSON"), "application/octet-stream");
    assert_eq!(content_type_for_name("a/b.min.mjs"), "text/javascript; charset=utf-8");
}

/// Reads a file through the meter, three bytes at a time.
fn measured(artifact: &Artifact, file: &[u8]) -> ArtifactMeter {
    let mut meter = ArtifactMeter::new(artifact);
    let mut at = 0;
    loop {
        let wanted = meter.next_read(3).min(file.len() - at);
        if wanted == 0 {
            return meter;
        }
        meter.record(&file[at..at + wanted]);
        at += wanted;
    }
}

fn artifact_for(bytes: &[u8]) -> Artifact {
    Artifact {
        path: "reports/result.txt".to_string(),
        sha256: digest_hex(bytes),
        bytes: bytes.len() as u64,
        mime: None,
    }
}

#[test]
fn single_artifact_delivery_rejects_same_size_swap() {
    let original = b"result-v1";
    let artifact = artifact_for(original);
    verify_artifact_measurement(&artifact, original.len() as u64, &digest_hex(original))
        .expect("matching content should pass");
    let swapped = b"result-v2";
    assert_eq!(swapped.len(), original.len());
    let error = verify_artifact_measurement(&artifact, swapped.len() as u64, &digest_hex(swapped))
        .expect_err("same-size content swap must be rejected");
    assert!(error.contains("content mismatch"));
    let truncated = b"result-";
    let error =
        verify_artifact_measurement(&artifact, truncated.len() as u64, &digest_hex(truncated))
            .expect_err("size change must be rejected");
    assert!(error.contains("bytes mismatch"));
    assert_eq!(error, "artifact `reports/result.txt` bytes mismatch: manifest=9, actual=7");
}

#[test]
fn single_artifact_strong_etag_names_verified_bytes() {
    let artifact = artifact_for(b"result-v1");
    let strong = format!("\"{}\"", artifact.sha256);
    assert!(begin_artifact_read(None, &artifact).expect("reads").is_none());
    let cached = begin_artifact_read(Some(strong.as_bytes()), &artifact)
        .expect("conditional")
        .expect("a matching precondition is answered at once");
    assert_eq!(cached.status, 304);
    assert_eq!(header(&cached, "etag"), Some(strong.as_str()));
    assert!(begin_artifact_read(Some(b"*"), &artifact).expect("star").is_some());
    assert!(begin_artifact_read(Some(b"\"other\""), &artifact).expect("other").is_none());
    assert_eq!(begin_artifact_read(Some(b"other"), &artifact).expect_err("bad").problem.status, 400);
    let refusal = read_artifact("reports/result.txt", &artifact, measured(&artifact, b"result-v2"))
        .expect_err("swapped content is never served");
    assert_eq!(refusal.problem.status, 500);
    assert!(refusal.problem.detail.contains("content mismatch"));
    let head = read_artifact("reports/result.txt", &artifact, measured(&artifact, b"result-v1"))
        .expect("verified content is served");
    assert_eq!(header(&head, "content-type"), Some("text/plain; charset=utf-8"));
    assert_eq!(header(&head, "content-disposition"), Some("attachment; filename=\"result.txt\""));
    assert_eq!(header(&head, "content-length"), Some("9"));
    assert_eq!(header(&head, "etag"), Some(strong.as_str()));
    assert!(check_artifact_size(&artifact, 9, None).is_ok());
    assert!(check_artifact_size(&artifact, 9, Some(9)).is_ok());
    let large = check_artifact_size(&artifact, 9, Some(8)).expect_err("beyond the limit");
    assert_eq!(large.problem.status, 413);
    assert_eq!(large.problem.detail, "payload is 9 bytes; limit is 8 bytes");
    assert_eq!(check_artifact_size(&artifact, 8, None).expect_err("swapped").problem.status, 500);
}

#[test]
fn measuring_stops_one_byte_after_the_manifest() {
    let artifact = artifact_for(b"result-v1");
    let mut meter = ArtifactMeter::new(&artifact);
    assert_eq!(meter.next_read(4), 4);
    meter.record(b"resu");
    assert_eq!(meter.next_read(64), 6);
    meter.record(b"lt-v1!");
    assert_eq!(meter.next_read(64), 0);
    assert_eq!(meter.total(), 10, "a grown file shows one byte too many");
    let refusal = read_artifact("result.txt", &artifact, meter).expect_err("a grown file");
    assert_eq!(
        refusal.problem.detail,
        "artifact `reports/result.txt` bytes mismatch: manifest=9, actual=10"
    );
}

#[test]
fn the_digest_is_that_of_the_pieces_in_order() {
    let mut artifact = artifact_for(b"abc");
    artifact.sha256 = "ba7816bf8f01cfea414140de5dae2223b00361a396177a9cb410ff61f20015ad".to_string();
    let mut pieces = ArtifactMeter::new(&artifact);
    pieces.record(b"a");
    pieces.record(b"");
    pieces.record(b"bc");
    assert!(read_artifact("x", &artifact, pieces).is_ok());
    let mut swapped = ArtifactMeter::new(&artifact);
    swapped.record(b"bc");
    swapped.record(b"a");
    assert!(read_artifact("x", &artifact, swapped).is_err());
    assert!(read_artifact("x", &artifact, measured(&artifact, b"ab")).is_err(), "a cut file");
    let empty = artifact_for(b"");
    assert_eq!(
        empty.sha256,
        "e3b0c44298fc1c149afbf4c8996fb92427ae41e4649b934ca495991b7852b855"
    );
    assert!(read_artifact("x", &empty, ArtifactMeter::new(&empty)).is_ok());
}

#[test]
fn dispositions_stay_in_their_quotes() {
    assert_eq!(
        content_disposition_attachment("a/b\"c\\d\r\ne.txt"),
        "attachment; filename=\"b_c_d__e.txt\""
    );
    assert_eq!(content_disposition_attachment("dir/"), "attachment; filename=\"\"");
}

#[test]
fn asset_paths_are_judged_before_they_are_served() {
    let path = "/api/generators/g/assets/js/app.js";
    assert_eq!(asset_path(path).as_deref(), Some("js/app.js"));
    assert_eq!(asset_path("/api/runs/g/assets/x"), None);
    assert_eq!(asset_path("/api/generators/g"), None);
    assert!(!unsafe_generator_asset_path(path, true));
    assert!(unsafe_generator_asset_path(path, false));
    for encoded in ["%2e%2E/x", "a%2Fb", "a%5cb"] {
        assert!(unsafe_generator_asset_path(&format!("/api/generators/g/assets/{encoded}"), true));
    }
    assert!(!unsafe_generator_asset_path("/api/runs", false));
    assert!(reject_unsafe_generator_asset_path(false, path, false).is_ok(), "only reads");
    assert_eq!(
        reject_unsafe_generator_asset_path(true, path, false).expect_err("unsafe").problem.detail,
        "generator asset path contains an unsafe path component"
    );
    let head = generator_asset_head("js/app.js");
    assert_eq!(header(&head, "content-type"), Some("text/javascript; charset=utf-8"));
    assert_eq!(header(&head, "content-disposition"), Some("inline"));
}

fn event(seq: u64, kind: &str) -> RunEvent {
    RunEvent { seq, kind: kind.to_string(), data: Some(format!("{{\"seq\":{seq}}}")) }
}

#[test]
fn sse_shutdown_marker_distinguishes_shutdown_from_truncation() {
    let mut live = EventStream::new(0);
    assert!(live.close(false).is_none(), "a live token must yield no marker");
    let mut stream = EventStream::new(0);
    let marker = stream.close(true).expect("a cancelled token must yield a shutdown marker");
    assert_eq!(marker.name, Some("shutdown"));
    assert_eq!(marker.id, 1, "the marker must carry the next seq for resume");
    assert_eq!(
        marker.data,
        "{\"data\":{\"reason\":\"server is shutting down\"},\"kind\":\"shutdown\",\"seq\":1}"
    );
    assert!(stream.close(true).is_none(), "the marker stream must end after one event");
    let mut ended = EventStream::new(6);
    ended.deliver(&event(7, "run_finished")).expect("the terminal event is delivered");
    assert!(ended.close(true).is_none(), "a terminal close must suppress the shutdown marker");
    let mut flowing = EventStream::new(0);
    flowing.deliver(&event(41, "step_finished")).expect("delivered");
    assert_eq!(flowing.close(true).expect("marker").id, 42);
}

#[test]
fn server_reports_are_json_documents() {
    let marker = EventStream::new(8).close(true).expect("marker");
    let parsed: serde_json::Value = serde_json::from_str(&marker.data).expect("a document");
    assert_eq!(parsed["seq"], 9);
    assert_eq!(parsed["kind"], "shutdown");
    assert_eq!(parsed["data"]["reason"], "server is shutting down");
    assert_eq!(serde_json::to_string(&parsed).expect("serialises"), marker.data);
}

#[test]
fn nothing_follows_the_end_of_a_stream() {
    let mut stream = EventStream::new(0);
    assert!(stream.deliver(&event(1, "run_started")).is_some());
    let failed = stream
        .deliver(&RunEvent { seq: 2, kind: "step_finished".to_string(), data: None })
        .expect("a failure is reported in its place");
    assert_eq!((failed.name, failed.id), (Some("stream_error"), 2));
    assert_eq!(
        failed.data,
        "{\"data\":{\"reason\":\"unserializable event\"},\"kind\":\"stream_error\",\"seq\":2}"
    );
    assert!(stream.deliver(&event(3, "run_finished")).is_none());
    assert!(stream.close(true).is_none());
    let mut stream = EventStream::new(0);
    stream.deliver(&event(1, "stream_error")).expect("delivered");
    assert!(stream.deliver(&event(2, "step_finished")).is_none());
}

#[test]
fn sse_drain_serves_history_without_spawning_a_live_tail() {
    let history = vec![event(1, "run_started"), event(2, "step_finished"), event(5, "step_finished")];
    let frames = drain_frames(&history, 1);
    let ids: Vec<u64> = frames.iter().map(|f| f.id).collect();
    assert_eq!(ids, vec![2, 5, 6]);
    assert_eq!(frames[2].name, Some("shutdown"));
    let ids: Vec<u64> = drain_frames(&history, 99).iter().map(|f| f.id).collect();
    assert_eq!(ids, vec![1, 2, 5, 6], "a cursor beyond the history starts over");
    assert_eq!(drain_frames(&Vec::new(), 0).len(), 1);
    let ended = vec![event(1, "run_started"), event(2, "run_finished")];
    let frames = drain_frames(&ended, 0);
    assert_eq!(frames.len(), 2, "a terminal event closes the stream itself");
}

#[test]
fn resume_points_are_plain_numbers() {
    assert_eq!(parse_last_event_id(None).expect("absent"), 0);
    assert_eq!(parse_last_event_id(Some(b"  ")).expect("blank"), 0);
    assert_eq!(parse_last_event_id(Some(b" 17 ")).expect("number"), 17);
    for bad in [&b"*"[..], b"1,2", b"W/\"1\"", b"-1", b"18446744073709551616"] {
        assert_eq!(
            parse_last_event_id(Some(bad)).expect_err("no cursor").problem.detail,
            "Last-Event-ID must be an unsigned integer"
        );
    }
    assert_eq!(
        parse_last_event_id(Some(&[0xff])).expect_err("not text").problem.detail,
        "Last-Event-ID must be valid ASCII"
    );
}

#[test]
fn journal_streams_interleave_by_number() {
    let durable = b"{\"seq\":1}\n{\"seq\":4}\n\n{\"seq\":5}";
    let observed = b"{\"seq\":2,\"o\":1}\n{\"seq\":4,\"o\":1}\n";
    let merged = merge_record_streams(durable, observed).expect("merges");
    assert_eq!(
        String::from_utf8(merged).expect("text"),
        "{\"seq\":1}\n{\"seq\":2,\"o\":1}\n{\"seq\":4}\n{\"seq\":4,\"o\":1}\n{\"seq\":5}\n"
    );
    for bad in [&b"{\"seq\":1}\n{\"t\":1}\n"[..], b"not json\n", b"{\"seq\":-1}\n", b"[1]"] {
        let error = merge_record_streams(bad, b"").expect_err("a line without a number fails");
        assert_eq!((error.problem.status, error.problem.detail.as_str()), (500, "journal line carries no seq"));
    }
    assert_eq!(decode(b"  \n\t\n").expect("blank").len(), 0);
}

#[test]
fn records_of_one_number_keep_their_order() {
    let record = |seq: u64, line: &str| Record { seq, line: line.as_bytes().to_vec() };
    let records = vec![
        record(3, "c\n"),
        record(1, "a"),
        record(3, "d\n"),
        record(2, "b\n"),
        record(1, "aa\n"),
    ];
    assert_eq!(merge_records(&records), b"a\naa\nb\nc\nd\n".to_vec());
    assert_eq!(merge_records(&Vec::new()), Vec::<u8>::new());
}

#[test]
fn journals_are_read_whole_only_where_they_have_to_be() {
    assert_eq!(journal_delivery(false, None), JournalDelivery::Streamed);
    assert_eq!(journal_delivery(true, None), JournalDelivery::Whole { most: None });
    for observed in [false, true] {
        assert_eq!(
            journal_delivery(observed, Some(10)),
            JournalDelivery::Whole { most: Some(11) }
        );
    }
}

#[test]
fn journals_are_bounded_before_they_are_served() {
    assert_eq!(journal_read_bound(10), 11);
    assert!(check_journal_size(10, Some(10)).is_ok());
    assert_eq!(check_journal_size(11, Some(10)).expect_err("large").problem.status, 413);
    let bytes = b"{\"seq\":2}\n".to_vec();
    let plain = read_journal(None, bytes.clone(), None, Some(10)).expect("served");
    assert_eq!(plain.body, bytes);
    assert_eq!(header(&plain.head, "content-type"), Some("application/x-ndjson"));
    assert_eq!(read_journal(None, bytes.clone(), None, Some(9)).expect_err("large").problem.status, 413);
    let merged = read_journal(None, bytes, Some(b"{\"seq\":1}\n".to_vec()), None).expect("merged");
    assert_eq!(merged.body, b"{\"seq\":1}\n{\"seq\":2}\n".to_vec());
}

fn item(run_id: &str, started_at: &str, state: &str) -> RunItem {
    RunItem {
        run_id: run_id.to_string(),
        generator_id: "gen".to_string(),
        started_at: started_at.to_string(),
        state: state.to_string(),
    }
}

fn query() -> RunListQuery {
    RunListQuery {
        limit: None,
        since: None,
        cursor: None,
        state: None,
        generator_id: None,
        descending: false,
    }
}

const BOUNDS: PageBounds = PageBounds { default: 2, min: 1, max: 100 };

#[test]
fn descending_history_pages_cover_newest_runs_without_gaps() {
    let items: Vec<RunItem> = (1..=5)
        .map(|i| item(&format!("run-{i}"), &format!("2026-01-0{i}T00:00:00Z"), "success"))
        .collect();
    for descending in [false, true] {
        let mut query = query();
        query.descending = descending;
        let plan = check_list_query(&query, &BOUNDS).expect("plan");
        let mut seen = Vec::new();
        loop {
            let page = list_runs(&items, &query, &plan).expect("page");
            seen.extend(page.picked);
            match page.next_cursor {
                Some(cursor) => query.cursor = Some(cursor),
                None => break,
            }
        }
        let expected: Vec<usize> = if descending { vec![4, 3, 2, 1, 0] } else { vec![0, 1, 2, 3, 4] };
        assert_eq!(seen, expected, "every run exactly once, in order");
    }
}

#[test]
fn filtered_pages_joined_are_the_filtered_runs() {
    let items: Vec<RunItem> = (0..9)
        .map(|i| {
            let state = if i % 3 == 0 { "failed" } else { "success" };
            item(&format!("run-{}", i % 2), &format!("2026-01-0{}T00:00:00Z", 1 + i / 2), state)
        })
        .collect();
    for (descending, since, expected) in [
        (false, None, vec![1, 2, 4, 5, 7, 8]),
        (true, None, vec![8, 7, 5, 4, 2, 1]),
        (false, Some("2026-01-03T00:00:00Z"), vec![4, 5, 7, 8]),
    ] {
        for limit in 1..=7 {
            let mut query = query();
            query.descending = descending;
            query.state = Some("success".to_string());
            query.since = since.map(str::to_string);
            query.limit = Some(limit);
            let bounds = PageBounds { default: 50, min: 1, max: 100 };
            let plan = check_list_query(&query, &bounds).expect("plan");
            let mut seen = Vec::new();
            loop {
                let page = list_runs(&items, &query, &plan).expect("page");
                assert!(page.picked.len() <= limit);
                seen.extend(page.picked);
                assert_eq!(page.next_cursor.is_some(), seen.len() < expected.len());
                match page.next_cursor {
                    Some(cursor) => query.cursor = Some(cursor),
                    None => break,
                }
            }
            assert_eq!(seen, expected, "limit {limit}");
        }
    }
}

#[test]
fn lists_are_filtered_by_state_generator_and_start() {
    let mut items = vec![
        item("a", "2026-01-01T00:00:00Z", "success"),
        item("b", "2026-01-02T00:00:00Z", "failed"),
        item("c", "2026-01-03T00:00:00+01:00", "success"),
    ];
    items[2].generator_id = "other".to_string();
    let picked = |query: &RunListQuery| {
        let plan = check_list_query(query, &PageBounds { default: 50, min: 1, max: 100 }).expect("plan");
        list_runs(&items, query, &plan).expect("page").picked
    };
    let mut q = query();
    q.state = Some("success".to_string());
    assert_eq!(picked(&q), vec![0, 2]);
    q.generator_id = Some("other".to_string());
    assert_eq!(picked(&q), vec![2]);
    let mut q = query();
    q.since = Some("2026-01-02T00:00:00Z".to_string());
    assert_eq!(picked(&q), vec![1, 2]);
    q.since = Some("2026-01-02T23:00:00Z".to_string());
    assert_eq!(picked(&q), vec![2], "instants are compared, not texts");
    q.since = Some("2026-01-02T23:00:00.000000001Z".to_string());
    assert_eq!(picked(&q), Vec::<usize>::new());
}

#[test]
fn list_queries_are_refused_by_field() {
    let mut q = query();
    q.limit = Some(0);
    let error = check_list_query(&q, &BOUNDS).expect_err("zero");
    assert_eq!(error.problem.status, 400);
    assert_eq!(error.problem.errors[0].field, "limit");
    assert_eq!(error.problem.detail, "limit must be between 1 and 100");
    q.limit = Some(101);
    assert!(check_list_query(&q, &BOUNDS).is_err());
    let mut q = query();
    q.since = Some("yesterday".to_string());
    let error = check_list_query(&q, &BOUNDS).expect_err("no time");
    assert_eq!(error.problem.errors[0].field, "since");
    assert!(error.problem.detail.starts_with("since must be RFC 3339: "), "{error:?}");
    let refused = plan_list(&query(), &BOUNDS, Some(Err("bad".to_string()))).expect_err("bad");
    assert_eq!(refused.problem.detail, "since must be RFC 3339: bad");
    let mut q = query();
    q.cursor = Some("run-1".to_string());
    let plan = ListPlan { limit: 2, since: None };
    let error = list_runs(&Vec::new(), &q, &plan).expect_err("bare run id");
    assert_eq!(error.problem.errors[0].field, "cursor");
    assert_eq!(error.problem.detail, "cursor must have form `started_at|run_id`");
    let broken = vec![item("r", "soon", "success")];
    let plan = ListPlan { limit: 2, since: Some((0, 0)) };
    let error = list_runs(&broken, &query(), &plan).expect_err("corrupt start");
    assert_eq!(error.problem.status, 500);
    assert!(error.problem.detail.starts_with("run `r` has invalid started_at: "), "{error:?}");
}

#[test]
fn generator_series_are_bounded_and_labels_escaped() {
    let mut runs = Vec::new();
    for index in 0..25 {
        runs.push((format!("gen-{index:02}"), index));
    }
    let top = top_generator_runs(&runs);
    assert_eq!(top.len(), METRICS_GENERATOR_LIMIT);
    assert_eq!(top[0], ("gen-24".to_string(), 24));
    assert_eq!(top[19], ("gen-05".to_string(), 5));
    assert_eq!(
        top_generator_runs(&vec![("b".to_string(), 1), ("a".to_string(), 1)]),
        vec![("a".to_string(), 1), ("b".to_string(), 1)]
    );
    assert_eq!(escape_prometheus_label("a\"b\\c\nd"), "a\\\"b\\\\c\\nd");
}

#[test]
fn metrics_exposes_run_and_generator_series() {
    let fact = |phase: RunPhase, state: &str, generator: &str| RunFact {
        phase,
        state: state.to_string(),
        generator_id: generator.to_string(),
    };
    let runs = vec![
        fact(RunPhase::Running, "running", "slow"),
        fact(RunPhase::Queued, "queued", "slow"),
        fact(RunPhase::Settled, "success", "fast"),
        fact(RunPhase::Waiting, "waiting", "slow"),
        fact(RunPhase::Confirming, "confirming", "a\"b"),
    ];
    let body = metrics(&runs);
    assert_eq!(
        body,
        "# HELP qcg_runs_total Number of durable runs by state.\n\
         # TYPE qcg_runs_total gauge\n\
         qcg_runs_total{state=\"confirming\"} 1\n\
         qcg_runs_total{state=\"queued\"} 1\n\
         qcg_runs_total{state=\"running\"} 1\n\
         qcg_runs_total{state=\"success\"} 1\n\
         qcg_runs_total{state=\"waiting\"} 1\n\
         # HELP qcg_runs_active Number of queued or running runs.\n\
         # TYPE qcg_runs_active gauge\n\
         qcg_runs_active 2\n\
         # HELP qcg_runs_queued Number of queued runs.\n\
         # TYPE qcg_runs_queued gauge\n\
         qcg_runs_queued 1\n\
         # HELP qcg_runs_waiting Number of runs waiting for interactive input.\n\
         # TYPE qcg_runs_waiting gauge\n\
         qcg_runs_waiting 1\n\
         # HELP qcg_runs_confirming Number of runs waiting for confirmation.\n\
         # TYPE qcg_runs_confirming gauge\n\
         qcg_runs_confirming 1\n\
         # HELP qcg_generators Number of distinct generators represented in the run inventory.\n\
         # TYPE qcg_generators gauge\n\
         qcg_generators 3\n\
         # HELP qcg_generator_runs_total Number of durable runs per generator (top 20 by run count).\n\
         # TYPE qcg_generator_runs_total gauge\n\
         qcg_generator_runs_total{generator=\"slow\"} 3\n\
         qcg_generator_runs_total{generator=\"a\\\"b\"} 1\n\
         qcg_generator_runs_total{generator=\"fast\"} 1\n"
    );
    assert_eq!(metrics_content_type(), "text/plain; version=0.0.4; charset=utf-8");
}

#[test]
fn names_are_counted_in_dictionary_order() {
    let names: Vec<String> = ["b", "a", "b", "c", "a", "b"].iter().map(|n| n.to_string()).collect();
    assert_eq!(
        count_names(&names),
        vec![("a".to_string(), 2), ("b".to_string(), 3), ("c".to_string(), 1)]
    );
}
