//! Keyed requests from admission to answer, in memory and against the store's
//! answers.
use qcg_server::error::{ApiError, ApiHttpError};
use qcg_server::idempotency::durable::{ClaimOutcome, StoreReadyError};
use qcg_server::idempotency::flow::{
    advance, advance_unkeyed, begin, begin_mutation, consult, idempotency_key, read_mutation,
    request_digest, scope_creates_run, Action, ClaimId, Event, KeyedRequest, Limits, Mutation,
    Phase, Refusal, Step,
};
use qcg_server::idempotency::memory::{prune_idempotency, IdempotencyEntry, IdempotencyTable};
use qcg_server::idempotency::owner::{OwnerCheck, WaitOutcome};
use qcg_server::idempotency::record::DurableIdempotencyRecord;

const LIMITS: Limits = Limits { ttl_secs: 60, max_entries: 8 };

fn request(digest: &str) -> KeyedRequest {
    KeyedRequest {
        key: "key".to_string(),
        digest: digest.to_string(),
        creates_run: true,
        reserved_run_id: Some("run-1".to_string()),
    }
}

fn consulted(table: &mut IdempotencyTable, request: &KeyedRequest) -> Step {
    let Step { phase, .. } = begin();
    match phase {
        Phase::Lookup { carried } => consult(request, carried, table, LIMITS, 5),
        other => panic!("a request begins at the table, got {other:?}"),
    }
}

fn next(table: &mut IdempotencyTable, request: &KeyedRequest, step: Step, event: Event) -> Step {
    advance(step.phase, event, request, table, LIMITS, 5, 77)
}

fn owner(run: &str) -> Event {
    Event::Claimed(Ok(ClaimOutcome::Owner {
        run_id: Some(run.to_string()),
        owner: "claim-1".to_string(),
        generation: 1,
    }))
}

fn executing(table: &mut IdempotencyTable, request: &KeyedRequest) -> Step {
    let step = consulted(table, request);
    assert!(matches!(step.action, Action::LoadReady));
    let step = next(table, request, step, Event::ReadyLoaded(Ok(None)));
    assert!(matches!(step.action, Action::ScanOrphans));
    let step = next(table, request, step, Event::OrphansScanned(Ok(None)));
    match &step.action {
        Action::Claim { reserved_run_id } => assert_eq!(reserved_run_id.as_deref(), Some("run-1")),
        other => panic!("the key is claimed next, got {other:?}"),
    }
    let step = next(table, request, step, owner("run-1"));
    assert!(matches!(step.action, Action::CheckOwner { .. }));
    let step = next(table, request, step, Event::OwnerChecked(Ok(OwnerCheck::Current)));
    match &step.action {
        Action::Execute { run_id } => assert_eq!(run_id.as_deref(), Some("run-1")),
        other => panic!("a current claim executes, got {other:?}"),
    }
    step
}

#[test]
fn a_request_is_admitted_executed_committed_and_replayed() {
    let mut table = IdempotencyTable::new();
    let request = request("d");
    let step = executing(&mut table, &request);
    match table.get("key") {
        Some(IdempotencyEntry::Pending { owner_id, .. }) => assert_eq!(*owner_id, 77),
        other => panic!("the request is in progress, got {other:?}"),
    }
    let step = next(&mut table, &request, step, Event::Executed(Ok("run-1".to_string())));
    assert!(matches!(&step.action, Action::WriteOrphan { run_id } if run_id == "run-1"));
    let step = next(&mut table, &request, step, Event::OrphanWritten);
    match &step.action {
        Action::Commit { run_id, claim: ClaimId { owner, generation } } => {
            assert_eq!((run_id.as_str(), owner.as_str(), *generation), ("run-1", "claim-1", 1))
        }
        other => panic!("the run is committed, got {other:?}"),
    }
    let step = next(&mut table, &request, step, Event::Committed(Ok("run-1".to_string())));
    assert!(matches!(step.action, Action::Release { .. }));
    assert_eq!(step.wake, None);
    let step = next(&mut table, &request, step, Event::Released(true));
    assert!(matches!(&step.action, Action::Finish(Ok(run_id)) if run_id == "run-1"));
    assert_eq!(step.wake, Some(77), "waiters are woken at the end");
    // A replay is answered from the table.
    let again = consulted(&mut table, &request);
    assert!(matches!(&again.action, Action::Finish(Ok(run_id)) if run_id == "run-1"));
}

#[test]
fn a_repeated_request_replays_the_first_run_from_memory_and_from_the_store() {
    let first = request("d");
    let mapping = || DurableIdempotencyRecord {
        key: "key".to_string(),
        digest: "d".to_string(),
        run_id: "run-1".to_string(),
        created_at_unix: 100,
        generation: 1,
    };
    let mut table = IdempotencyTable::new();
    let step = executing(&mut table, &first);
    // A repeated request that arrives meanwhile waits, and is not executed.
    let waiting = consulted(&mut table, &first);
    assert!(matches!(waiting.action, Action::WaitLocal { owner_id: 77 }));
    let step = next(&mut table, &first, step, Event::Executed(Ok("run-1".to_string())));
    let step = next(&mut table, &first, step, Event::OrphanWritten);
    let step = next(&mut table, &first, step, Event::Committed(Ok("run-1".to_string())));
    let step = next(&mut table, &first, step, Event::Released(true));
    assert!(matches!(&step.action, Action::Finish(Ok(run_id)) if run_id == "run-1"));
    let woken = next(&mut table, &first, waiting, Event::Woken);
    assert!(matches!(woken.action, Action::Consult));
    let answered = consulted(&mut table, &first);
    assert!(matches!(&answered.action, Action::Finish(Ok(run_id)) if run_id == "run-1"));
    // After a restart the table is empty and the store answers.
    let mut restarted = IdempotencyTable::new();
    let step = consulted(&mut restarted, &first);
    assert!(matches!(step.action, Action::LoadReady));
    let step = next(&mut restarted, &first, step, Event::ReadyLoaded(Ok(Some(mapping()))));
    assert!(matches!(&step.action, Action::Finish(Ok(run_id)) if run_id == "run-1"));
    // From then on the table answers again.
    let answered = consulted(&mut restarted, &first);
    assert!(matches!(&answered.action, Action::Finish(Ok(run_id)) if run_id == "run-1"));
}

#[test]
fn a_request_without_a_key_executes_once_under_its_reservation() {
    for sent in [None, Some(&b""[..]), Some(&b"  \t "[..])] {
        let mutation =
            read_mutation(sent, "start_run", "/t", b"{}", Some("run-9".to_string())).expect("read");
        assert!(matches!(&mutation, Mutation::Unkeyed { .. }));
        let first = begin_mutation(&mutation);
        assert!(
            matches!(&first.action, Action::Execute { run_id } if run_id.as_deref() == Some("run-9"))
        );
        let last = advance_unkeyed(first.phase, Event::Executed(Ok("run-9".to_string())));
        assert!(matches!(&last.action, Action::Finish(Ok(run_id)) if run_id == "run-9"));
        let again = advance_unkeyed(last.phase, Event::Executed(Ok("run-9".to_string())));
        assert!(matches!(again.action, Action::Finish(Err(Refusal::OutOfStep))));
    }
    let first = begin_mutation(&Mutation::Unkeyed { reserved_run_id: None });
    assert!(matches!(&first.action, Action::Execute { run_id: None }));
    let refused = ApiError::Conflict { detail: "taken".to_string() };
    match advance_unkeyed(first.phase, Event::Executed(Err(refused))).action {
        Action::Finish(Err(refusal)) => {
            let expected = ApiHttpError::from_api(ApiError::Conflict { detail: "taken".to_string() });
            let answer = refusal.into_error();
            assert_eq!(answer.problem.status, expected.problem.status);
            assert_eq!(answer.problem.detail, expected.problem.detail);
        }
        other => panic!("the service's refusal answers, got {other:?}"),
    }
}

#[test]
fn mutations_are_read_from_their_parts() {
    let read = |sent: Option<&[u8]>, scope: &str| {
        read_mutation(sent, scope, "/t", b"{}", Some("run-1".to_string()))
    };
    for (scope, creates) in [("start_run", true), ("cancel_run", false)] {
        match read(Some(b" key "), scope).expect("read") {
            Mutation::Keyed(request) => {
                assert_eq!(request.key, "key");
                assert_eq!(request.digest, request_digest(scope, "/t", b"{}"));
                assert_eq!(request.creates_run, creates);
                assert_eq!(request.reserved_run_id.as_deref(), Some("run-1"));
                let step = begin_mutation(&Mutation::Keyed(request));
                assert!(matches!(step.action, Action::Consult));
            }
            Mutation::Unkeyed { .. } => panic!("a key was sent"),
        }
    }
    match read(Some(b"k\xff"), "start_run") {
        Err(refusal) => {
            assert_eq!(refusal.problem.status, 400);
            assert_eq!(refusal.problem.detail, "Idempotency-Key must be valid ASCII");
        }
        Ok(_) => panic!("a key is text"),
    }
}

#[test]
fn a_lost_look_at_the_mapping_is_a_failure() {
    let mut table = IdempotencyTable::new();
    let request = request("d");
    let step = consulted(&mut table, &request);
    let step = next(&mut table, &request, step, Event::LoadLost("lost".to_string()));
    match step.action {
        Action::Finish(Err(Refusal::Internal(detail))) => assert_eq!(detail, "lost"),
        other => panic!("the failure answers, got {other:?}"),
    }
    let step = executing(&mut table, &request);
    let step = next(&mut table, &request, step, Event::Executed(Ok("run-1".to_string())));
    let step = next(&mut table, &request, step, Event::OrphanWritten);
    let failed = StoreReadyError::Storage("disk".to_string());
    let step = next(&mut table, &request, step, Event::Committed(Err(failed)));
    assert!(matches!(step.action, Action::LoadReady));
    let step = next(&mut table, &request, step, Event::LoadLost("lost".to_string()));
    match step.action {
        Action::Finish(Err(Refusal::Unpersisted(detail))) => assert_eq!(detail, "disk"),
        other => panic!("the failed commit answers, got {other:?}"),
    }
    assert_eq!(step.wake, Some(77));
}

#[test]
fn other_content_under_the_key_conflicts() {
    let mut table = IdempotencyTable::new();
    let first = request("d");
    executing(&mut table, &first);
    let step = consulted(&mut table, &request("e"));
    assert!(matches!(step.action, Action::Finish(Err(Refusal::Conflict))));
    let same = consulted(&mut table, &first);
    assert!(
        matches!(same.action, Action::WaitLocal { owner_id: 77 }),
        "the same request waits for the one in progress"
    );
    assert_eq!(Refusal::Conflict.into_error().problem.status, 409);
}

#[test]
fn committed_and_recorded_runs_are_adopted() {
    let mut table = IdempotencyTable::new();
    let request = request("d");
    let record = |digest: &str| {
        Event::ReadyLoaded(Ok(Some(DurableIdempotencyRecord {
            key: "key".to_string(),
            digest: digest.to_string(),
            run_id: "run-7".to_string(),
            created_at_unix: 1,
            generation: 1,
        })))
    };
    let step = consulted(&mut table, &request);
    let step = next(&mut table, &request, step, record("other"));
    assert!(matches!(step.action, Action::Finish(Err(Refusal::Conflict))));
    let step = consulted(&mut table, &request);
    let step = next(&mut table, &request, step, record("d"));
    assert!(matches!(&step.action, Action::Finish(Ok(run_id)) if run_id == "run-7"));

    let mut table = IdempotencyTable::new();
    let step = consulted(&mut table, &request);
    let step = next(&mut table, &request, step, Event::ReadyLoaded(Ok(None)));
    let found = Event::OrphansScanned(Ok(Some(("run-9".to_string(), "d".to_string()))));
    let step = next(&mut table, &request, step, found);
    match &step.action {
        Action::Claim { reserved_run_id } => assert_eq!(reserved_run_id.as_deref(), Some("run-9")),
        other => panic!("the recorded run is claimed, got {other:?}"),
    }
}

#[test]
fn a_recalled_claim_is_claimed_again_under_the_same_run() {
    let mut table = IdempotencyTable::new();
    let request = request("d");
    let step = consulted(&mut table, &request);
    let step = next(&mut table, &request, step, Event::ReadyLoaded(Ok(None)));
    let step = next(&mut table, &request, step, Event::OrphansScanned(Ok(None)));
    let step = next(&mut table, &request, step, owner("run-5"));
    let step = next(&mut table, &request, step, Event::OwnerChecked(Ok(OwnerCheck::Superseded)));
    assert!(matches!(step.action, Action::Consult));
    assert_eq!(step.wake, Some(77));
    assert!(table.get("key").is_none(), "the entry is withdrawn");
    let carried = match step.phase {
        Phase::Lookup { carried } => carried,
        other => panic!("back to the table, got {other:?}"),
    };
    assert_eq!(carried.as_deref(), Some("run-5"));
    let step = consult(&request, carried, &mut table, LIMITS, 6);
    let step = next(&mut table, &request, step, Event::ReadyLoaded(Ok(None)));
    match &step.action {
        Action::Claim { reserved_run_id } => assert_eq!(reserved_run_id.as_deref(), Some("run-5")),
        other => panic!("the adopted run is claimed, got {other:?}"),
    }
}

#[test]
fn a_failed_execution_releases_and_reports() {
    let mut table = IdempotencyTable::new();
    let request = request("d");
    let step = executing(&mut table, &request);
    let refused = ApiError::Conflict { detail: "no".to_string() };
    let step = next(&mut table, &request, step, Event::Executed(Err(refused)));
    assert!(matches!(step.action, Action::Release { .. }));
    assert!(table.get("key").is_none());
    let step = next(&mut table, &request, step, Event::Released(true));
    match step.action {
        Action::Finish(Err(refusal)) => {
            let error = refusal.into_error();
            assert_eq!((error.problem.status, error.problem.detail.as_str()), (409, "no"));
        }
        other => panic!("the refusal is reported, got {other:?}"),
    }
    assert_eq!(step.wake, Some(77));
}

#[test]
fn a_claim_that_cannot_be_released_is_unavailable() {
    let mut table = IdempotencyTable::new();
    let request = request("d");
    let step = executing(&mut table, &request);
    let refused = ApiError::Internal { detail: "boom".to_string() };
    let step = next(&mut table, &request, step, Event::Executed(Err(refused)));
    let step = next(&mut table, &request, step, Event::Released(false));
    match step.action {
        Action::Finish(Err(refusal)) => assert_eq!(refusal.into_error().problem.status, 503),
        other => panic!("an unreleased claim is reported, got {other:?}"),
    }
}

#[test]
fn a_surplus_run_is_cancelled_in_favour_of_the_committed_one() {
    let mut table = IdempotencyTable::new();
    let request = request("d");
    let step = executing(&mut table, &request);
    let step = next(&mut table, &request, step, Event::Executed(Ok("run-1".to_string())));
    let step = next(&mut table, &request, step, Event::OrphanWritten);
    let step = next(&mut table, &request, step, Event::Committed(Ok("run-0".to_string())));
    assert!(matches!(&step.action, Action::CancelRun { run_id } if run_id == "run-1"));
    let step = next(&mut table, &request, step, Event::RunCancelled(Ok(())));
    assert!(matches!(step.action, Action::Release { .. }));
    let step = next(&mut table, &request, step, Event::Released(true));
    assert!(matches!(&step.action, Action::Finish(Ok(run_id)) if run_id == "run-0"));
}

#[test]
fn stale_commit_with_ready_present_cancels_surplus_through_the_machine() {
    let mut table = IdempotencyTable::new();
    let request = request("d");
    let step = executing(&mut table, &request);
    let step = next(&mut table, &request, step, Event::Executed(Ok("run-1".to_string())));
    let step = next(&mut table, &request, step, Event::OrphanWritten);
    let refused = StoreReadyError::Storage("superseded".to_string());
    let step = next(&mut table, &request, step, Event::Committed(Err(refused)));
    assert!(matches!(step.action, Action::LoadReady), "the committed mapping is looked up");
    let committed = DurableIdempotencyRecord {
        key: "key".to_string(),
        digest: "d".to_string(),
        run_id: "run-0".to_string(),
        created_at_unix: 1,
        generation: 2,
    };
    let step = next(&mut table, &request, step, Event::ReadyLoaded(Ok(Some(committed))));
    assert!(matches!(&step.action, Action::CancelRun { run_id } if run_id == "run-1"));
    let step = next(&mut table, &request, step, Event::RunCancelled(Ok(())));
    assert!(matches!(step.action, Action::Release { .. }));
    let step = next(&mut table, &request, step, Event::Released(true));
    match step.action {
        Action::Finish(Err(refusal)) => {
            let error = refusal.into_error();
            assert_eq!(error.problem.status, 500);
            assert_eq!(
                error.problem.detail,
                "failed to persist idempotency record: superseded"
            );
        }
        other => panic!("a refused commit is reported, got {other:?}"),
    }
    assert!(table.get("key").is_none(), "no entry advertises an uncommitted run");
}

#[test]
fn a_peer_is_waited_for() {
    let mut table = IdempotencyTable::new();
    let request = request("d");
    let claiming = |table: &mut IdempotencyTable| {
        let step = consulted(table, &request);
        let step = next(table, &request, step, Event::ReadyLoaded(Ok(None)));
        next(table, &request, step, Event::OrphansScanned(Ok(None)))
    };
    let step = claiming(&mut table);
    let step = next(&mut table, &request, step, Event::Claimed(Ok(ClaimOutcome::Peer)));
    assert!(matches!(step.action, Action::WaitPeer));
    let step = next(
        &mut table,
        &request,
        step,
        Event::PeerWaited(Ok(WaitOutcome::RetryClaim { adopted_run_id: Some("run-3".to_string()) })),
    );
    match step.phase {
        Phase::Lookup { carried } => assert_eq!(carried.as_deref(), Some("run-3")),
        other => panic!("a gone peer is replaced, got {other:?}"),
    }
    let step = claiming(&mut table);
    let step = next(&mut table, &request, step, Event::Claimed(Ok(ClaimOutcome::Peer)));
    let refused = ApiHttpError::service_unavailable("busy".to_string());
    let step = next(&mut table, &request, step, Event::PeerWaited(Err(refused)));
    match step.action {
        Action::Finish(Err(refusal)) => assert_eq!(refusal.into_error().problem.detail, "busy"),
        other => panic!("the wait's refusal is the answer, got {other:?}"),
    }
}

#[test]
fn a_full_table_refuses_and_keeps_the_claim() {
    let mut table = IdempotencyTable::new();
    for i in 0..8u32 {
        let entry = IdempotencyEntry::Pending {
            digest: "x".to_string(),
            owner_id: i as u128,
            created_at: 5,
        };
        table.insert(&format!("busy-{i}"), entry);
    }
    let request = request("d");
    let step = consulted(&mut table, &request);
    let step = next(&mut table, &request, step, Event::ReadyLoaded(Ok(None)));
    let step = next(&mut table, &request, step, Event::OrphansScanned(Ok(None)));
    let step = next(&mut table, &request, step, owner("run-1"));
    match step.action {
        Action::Finish(Err(refusal)) => {
            let error = refusal.into_error();
            assert_eq!(error.problem.status, 503);
            assert_eq!(error.problem.detail, "too many idempotent requests are still in progress");
        }
        other => panic!("a full table refuses, got {other:?}"),
    }
}

#[test]
fn an_event_out_of_step_is_refused() {
    let mut table = IdempotencyTable::new();
    let request = request("d");
    let step = consulted(&mut table, &request);
    let step = next(&mut table, &request, step, Event::Woken);
    assert!(matches!(step.action, Action::Finish(Err(Refusal::OutOfStep))));
}

#[test]
fn pruning_evicts_the_oldest_known_runs_first() {
    let mut table = IdempotencyTable::new();
    let ready = |created_at: u64| IdempotencyEntry::Ready {
        digest: "d".to_string(),
        created_at,
        run_id: "r".to_string(),
    };
    table.insert(&"old".to_string(), ready(10));
    table.insert(&"new".to_string(), ready(20));
    let busy = IdempotencyEntry::Pending { digest: "d".to_string(), owner_id: 1, created_at: 1 };
    table.insert(&"busy".to_string(), busy);
    prune_idempotency(&mut table, 30, 60, 3);
    assert!(table.get("old").is_none());
    assert!(table.get("new").is_some() && table.get("busy").is_some());
    prune_idempotency(&mut table, 30, 0, 3);
    assert_eq!(table.len(), 0, "a lifetime of zero keeps nothing");
}

#[test]
fn withdrawing_spares_other_owners() {
    let mut table = IdempotencyTable::new();
    let busy = IdempotencyEntry::Pending { digest: "d".to_string(), owner_id: 1, created_at: 1 };
    table.insert(&"k".to_string(), busy);
    assert!(!table.withdraw("k", 2));
    assert!(table.get("k").is_some());
    assert!(table.withdraw("k", 1));
    assert!(table.get("k").is_none());
}

#[test]
fn keys_and_digests_are_read_from_the_request() {
    assert_eq!(idempotency_key(None).expect("absent"), None);
    assert_eq!(idempotency_key(Some(b"  ")).expect("blank"), None);
    assert_eq!(idempotency_key(Some(b" abc ")).expect("key"), Some("abc".to_string()));
    assert_eq!(
        idempotency_key(Some(&[0xff])).expect_err("not text").problem.detail,
        "Idempotency-Key must be valid ASCII"
    );
    assert!(scope_creates_run("start_run") && scope_creates_run("fork_run"));
    assert!(!scope_creates_run("answer"));
    // The digest of "a\0b\0c".
    assert_eq!(
        request_digest("a", "b", b"c"),
        "8badde10c760e9b702defb4b5e225de79c515b1d2a5cfb000e140f3c6fbb5629"
    );
    assert_ne!(request_digest("a", "b", b"c"), request_digest("a", "bc", b""));
}
