//! The durable claim protocol, on a store that applies what is decided.
use qcg_server::error::ApiHttpError;
use qcg_server::idempotency::durable::{
    claim_durable_pending, idempotency_conflict, load_durable_ready_result,
    pending_generation_from_parsed, read_durable_pending, reap_expired_ready_snapshot,
    store_durable_ready, ClaimOutcome, ClaimStep, PendingRead, StoreReadyError, StoreStep,
};
use qcg_server::idempotency::owner::{
    check_pending_owner, observe_peer, release_durable_pending, resolve_recheck, AfterRecheck,
    OwnerCheck, WaitOutcome, WaitStep,
};
use qcg_server::idempotency::record::{
    DurableIdempotencyRecord, DurablePendingRecord, PendingFile, ReadyFile,
};

const TTL: u64 = 86_400;
const NOW: u64 = 1_700_000_000;
const PAUSE: u64 = 100;

enum Slot<T> {
    Absent,
    Torn,
    Holds(T),
}

/// The two files of one key, and a clock.
struct Store {
    ready: Slot<DurableIdempotencyRecord>,
    pending: Slot<DurablePendingRecord>,
    now: u64,
    claims: u32,
}

impl Store {
    fn new() -> Store {
        Store { ready: Slot::Absent, pending: Slot::Absent, now: NOW, claims: 0 }
    }

    fn ready_file(&self) -> ReadyFile {
        match &self.ready {
            Slot::Absent => ReadyFile::Absent,
            Slot::Torn => ReadyFile::Corrupt("expected value at line 1".to_string()),
            Slot::Holds(r) => ReadyFile::Present(DurableIdempotencyRecord {
                key: r.key.clone(),
                digest: r.digest.clone(),
                run_id: r.run_id.clone(),
                created_at_unix: r.created_at_unix,
                generation: r.generation,
            }),
        }
    }

    fn pending_file(&self) -> PendingFile {
        match &self.pending {
            Slot::Absent => PendingFile::Absent,
            Slot::Torn => PendingFile::Corrupt("expected value at line 1".to_string()),
            Slot::Holds(p) => PendingFile::Present(DurablePendingRecord {
                key: p.key.clone(),
                digest: p.digest.clone(),
                run_id: p.run_id.clone(),
                owner: p.owner.clone(),
                created_at_unix: p.created_at_unix,
                generation: p.generation,
            }),
        }
    }

    fn claim(&mut self, key: &str, digest: &str, run: &str) -> Result<ClaimOutcome, ApiHttpError> {
        self.claims += 1;
        let plan = claim_durable_pending(
            key,
            digest,
            Some(run.to_string()),
            format!("claim-{}", self.claims),
            self.ready_file(),
            self.pending_file(),
            Some(self.now),
            TTL,
        );
        if plan.remove_ready {
            self.ready = Slot::Absent;
        }
        match plan.step? {
            ClaimStep::Peer => Ok(ClaimOutcome::Peer),
            ClaimStep::Ready { run_id } => Ok(ClaimOutcome::Ready { run_id }),
            ClaimStep::Conflict => Ok(ClaimOutcome::Conflict),
            ClaimStep::Publish(record) => {
                let outcome = ClaimOutcome::of_published(&record);
                self.pending = Slot::Holds(record);
                Ok(outcome)
            }
        }
    }

    fn own(&mut self, key: &str, digest: &str, run: &str) -> (String, u64) {
        match self.claim(key, digest, run).expect("claim should not error") {
            ClaimOutcome::Owner { owner, generation, .. } => (owner, generation),
            other => panic!("expected owner, got {other:?}"),
        }
    }

    fn commit(
        &mut self,
        key: &str,
        digest: &str,
        run: &str,
        owner: &str,
        generation: u64,
    ) -> Result<String, StoreReadyError> {
        let plan = store_durable_ready(
            key,
            digest,
            run,
            owner,
            generation,
            self.ready_file(),
            self.pending_file(),
            Some(self.now),
            TTL,
        );
        if plan.remove_ready {
            self.ready = Slot::Absent;
        }
        match plan.step? {
            StoreStep::Converged(run_id) => Ok(run_id),
            StoreStep::Publish(record) => {
                let run_id = record.run_id.clone();
                self.ready = Slot::Holds(record);
                Ok(run_id)
            }
        }
    }

    fn release(&mut self, key: &str, owner: &str, generation: u64) -> Result<(), String> {
        if release_durable_pending(key, owner, generation, &self.pending_file())? {
            self.pending = Slot::Absent;
        }
        Ok(())
    }

    fn check(&self, key: &str, owner: &str, generation: u64, digest: &str) -> Result<OwnerCheck, String> {
        check_pending_owner(key, owner, generation, digest, self.pending_file(), Some(self.now))
    }

    fn load(&self, key: &str) -> Result<Option<DurableIdempotencyRecord>, String> {
        load_durable_ready_result(key, self.ready_file(), Some(self.now), TTL)
    }

    fn age_claim(&mut self, created: u64) {
        if let Slot::Holds(p) = &mut self.pending {
            p.created_at_unix = created;
        }
    }

    fn has_claim(&self) -> bool {
        !matches!(self.pending, Slot::Absent)
    }
}

fn pending(key: &str, owner: &str, run_id: Option<&str>, created: u64, generation: u64) -> DurablePendingRecord {
    DurablePendingRecord {
        key: key.to_string(),
        digest: "d".to_string(),
        run_id: run_id.map(str::to_string),
        owner: owner.to_string(),
        created_at_unix: created,
        generation,
    }
}

fn name(outcome: &ClaimOutcome) -> &'static str {
    match outcome {
        ClaimOutcome::Owner { .. } => "Owner",
        ClaimOutcome::Peer => "Peer",
        ClaimOutcome::Ready { .. } => "Ready",
        ClaimOutcome::Conflict => "Conflict",
    }
}

#[test]
fn corrupt_ready_fails_fast_instead_of_waiting_out_the_deadline() {
    let mut store = Store::new();
    store.ready = Slot::Torn;
    let claim = read_durable_pending("key-1", store.pending_file(), Some(NOW));
    match observe_peer("d", store.load("key-1"), claim, false) {
        WaitStep::Finish(Err(error)) => assert!(
            error.problem.detail.contains("failed to load idempotency record"),
            "the failure must name the corrupt record: {error:?}"
        ),
        other => panic!("a corrupt Ready record must fail the wait: {other:?}"),
    }
}

#[test]
fn pending_owner_recheck_distinguishes_current_superseded_and_gone() {
    let mut store = Store::new();
    let key = "key-1";
    assert_eq!(store.check(key, "nobody", 1, "d"), Ok(OwnerCheck::Absent));
    store.pending = Slot::Holds(pending(key, "A", None, NOW, 1));
    assert_eq!(store.check(key, "A", 1, "d"), Ok(OwnerCheck::Current));
    assert_eq!(store.check(key, "A", 0, "d"), Ok(OwnerCheck::Superseded));
    assert_eq!(store.check(key, "A", 1, "other"), Ok(OwnerCheck::Superseded));
    store.pending = Slot::Holds(pending(key, "B", None, NOW, 2));
    assert_eq!(store.check(key, "A", 1, "d"), Ok(OwnerCheck::Superseded));
    assert_eq!(store.check(key, "B", 2, "d"), Ok(OwnerCheck::Current));
    store.pending = Slot::Torn;
    assert!(
        store.check(key, "B", 2, "d").is_err(),
        "a corrupt claim must fail the recheck, not read as gone"
    );
}

#[test]
fn pending_owner_recheck_verifies_key_and_expiry_fail_closed() {
    let mut store = Store::new();
    let key = "key-1";
    store.pending = Slot::Holds(pending("other", "A", None, NOW, 1));
    assert!(
        store.check(key, "A", 1, "d").is_err(),
        "a foreign-key file must fail the recheck, never read as owned"
    );
    assert!(store.has_claim());
    store.pending = Slot::Holds(pending(key, "A", Some("run-A"), 0, 1));
    assert_eq!(
        store.check(key, "A", 1, "d"),
        Ok(OwnerCheck::Superseded),
        "an expired claim must read as superseded even with matching identity"
    );
}

#[test]
fn ready_present_unusable_pending_is_refused_not_converged() {
    let mut store = Store::new();
    let key = "key-ready-unusable";
    let (owner, generation) = store.own(key, "digest", "run-A");
    store.commit(key, "digest", "run-A", &owner, generation).expect("ready commit should succeed");
    store.release(key, &owner, generation).expect("release should succeed");
    let converged = store
        .commit(key, "digest", "run-A", &owner, generation)
        .expect("absent reservation with committed Ready must converge");
    assert_eq!(converged, "run-A");
    store.pending = Slot::Torn;
    let error = store
        .commit(key, "digest", "run-A", &owner, generation)
        .expect_err("unusable pending with committed Ready must be refused, not converged");
    assert!(matches!(error, StoreReadyError::Storage(_)), "{error:?}");
    assert!(error.message().contains("unusable"), "{error:?}");
}

#[test]
fn release_never_deletes_a_foreign_key_file() {
    let mut store = Store::new();
    store.pending = Slot::Holds(pending("other", "o", None, NOW, 1));
    let error = store.release("key-1", "o", 1).expect_err("a foreign-key release must fail closed");
    assert!(error.contains("different key"), "foreign-key refusal must name the mismatch: {error}");
    assert!(store.has_claim(), "a foreign-key file must survive a mismatched release");
}

#[test]
fn stale_release_never_removes_a_successor_claim() {
    let mut store = Store::new();
    let key = "key-1";
    store.pending = Slot::Holds(pending(key, "B", None, NOW, 2));
    store.release(key, "A", 1).expect("release should not fail");
    store.release(key, "B", 3).expect("superseded generation should not fail");
    store.release(key, "someone-else", 2).expect("foreign owner should not fail");
    match &store.pending {
        Slot::Holds(survivor) => {
            assert_eq!(survivor.owner, "B", "successor claim must survive a stale release");
            assert_eq!(survivor.generation, 2);
        }
        _ => panic!("the claim must survive"),
    }
    store.release(key, "B", 2).expect("release should not fail");
    assert!(!store.has_claim(), "matching release must remove the claim");
}

#[test]
fn ready_reap_keeps_a_fresh_record() {
    let key = "key-1";
    let ready = |age: u64| {
        ReadyFile::Present(DurableIdempotencyRecord {
            key: key.to_string(),
            digest: "d".to_string(),
            run_id: "run-1".to_string(),
            created_at_unix: NOW - age,
            generation: 1,
        })
    };
    let fresh = reap_expired_ready_snapshot(key, ready(0), Some(NOW), TTL).expect("reap should not fail");
    assert!(!fresh.remove && fresh.live.is_some(), "fresh Ready must survive expiry reaping");
    let old = reap_expired_ready_snapshot(key, ready(TTL + 60), Some(NOW), TTL).expect("reap should not fail");
    assert!(old.remove && old.live.is_none(), "expired Ready must be reaped");
    assert_eq!(old.generation, 1, "an expired mapping still floors the next generation");
}

#[test]
fn corrupt_or_foreign_claim_is_unusable_not_absent() {
    let torn = PendingFile::Corrupt("expected value".to_string());
    assert!(
        matches!(read_durable_pending("key-1", torn, Some(NOW)), PendingRead::Unusable(_)),
        "corrupt claim must be unusable"
    );
    let foreign = PendingFile::Present(pending("other", "o", None, NOW, 1));
    assert!(
        matches!(read_durable_pending("key-1", foreign, Some(NOW)), PendingRead::Unusable(_)),
        "foreign claim must be unusable"
    );
}

#[test]
fn live_claim_with_different_digest_conflicts_immediately() {
    let mut store = Store::new();
    store.own("key-peer", "digest-a", "run-A");
    let outcome = store.claim("key-peer", "digest-b", "run-B").expect("claim should not error");
    assert_eq!(name(&outcome), "Conflict", "live foreign digest must conflict immediately");
}

#[test]
fn concurrent_claims_converge_on_one_owner() {
    let mut store = Store::new();
    let outcomes: Vec<&str> = (0..8)
        .map(|index| {
            let outcome = store
                .claim("key-parallel", "digest", &format!("run-{index}"))
                .expect("claim should not error");
            name(&outcome)
        })
        .collect();
    assert_eq!(outcomes.iter().filter(|o| **o == "Owner").count(), 1, "{outcomes:?}");
    assert!(outcomes.iter().all(|o| *o == "Owner" || *o == "Peer"), "{outcomes:?}");
}

#[test]
fn expired_own_claim_without_successor_is_refused() {
    let mut store = Store::new();
    let key = "key-expired";
    let (owner, generation) = store.own(key, "digest", "run-A");
    store.age_claim(NOW - 3600);
    let error = store
        .commit(key, "digest", "run-A", &owner, generation)
        .expect_err("expired commit without a live successor must be refused");
    assert!(error.message().contains("expired"), "expiry must be named, got: {error:?}");
}

#[test]
fn live_claim_held_past_deadline_reports_unavailable() {
    let mut store = Store::new();
    let key = "key-wait";
    store.own(key, "digest", "run-A");
    let claim = read_durable_pending(key, store.pending_file(), Some(NOW));
    assert!(matches!(observe_peer("digest", store.load(key), claim, false), WaitStep::Sleep));
    let claim = read_durable_pending(key, store.pending_file(), Some(NOW));
    match observe_peer("digest", store.load(key), claim, true) {
        WaitStep::Recheck(after) => {
            assert!(matches!(after, AfterRecheck::TimedOut));
            let error = resolve_recheck("digest", after, store.load(key))
                .expect_err("a held live claim must exhaust the deadline");
            assert_eq!(error.problem.status, 503);
            assert!(error.problem.detail.contains("still in progress"), "{error:?}");
        }
        other => panic!("the deadline must lead to a recheck: {other:?}"),
    }
}

#[test]
fn store_refusal_is_typed_not_string_matched() {
    let mut store = Store::new();
    let (owner, generation) = store.own("key-1", "digest", "run-A");
    store.commit("key-1", "digest", "run-A", &owner, generation).expect("ready commit should succeed");
    assert!(
        matches!(
            store.commit("key-1", "other-digest", "run-B", &owner, generation),
            Err(StoreReadyError::DigestConflict)
        ),
        "a committed key with a different digest must type as a conflict"
    );
}

#[test]
fn same_digest_converges_to_the_committed_run_id() {
    let mut store = Store::new();
    let key = "key-converge";
    let (owner, generation) = store.own(key, "digest", "run-A");
    let first = store.commit(key, "digest", "run-A", &owner, generation).expect("first commit should succeed");
    assert_eq!(first, "run-A");
    match store.claim(key, "digest", "run-B").expect("claim should not error") {
        ClaimOutcome::Ready { run_id } => assert_eq!(run_id, "run-A"),
        other => panic!("same digest must converge at claim, got {other:?}"),
    }
    let error = store
        .commit(key, "digest", "run-B", &owner, generation)
        .expect_err("mismatched reserved run must be refused, not converged");
    assert!(error.message().contains("reserved run"), "{error:?}");
}

#[test]
fn absent_and_corrupt_claims_leave_no_ready_behind() {
    let mut store = Store::new();
    let key = "key-refuse";
    let error = store.commit(key, "digest", "run-A", "nobody", 1).expect_err("absent reservation must refuse");
    assert!(matches!(error, StoreReadyError::Storage(_)), "{error:?}");
    assert!(store.load(key).expect("load should not fail").is_none());
    store.pending = Slot::Torn;
    let error = store.commit(key, "digest", "run-A", "nobody", 1).expect_err("corrupt reservation must refuse");
    assert!(matches!(error, StoreReadyError::Storage(_)), "{error:?}");
    assert!(store.load(key).expect("load should not fail").is_none());
}

#[test]
fn committed_ready_converges_claim_without_executing() {
    let mut store = Store::new();
    let key = "key-1";
    let (owner, generation) = store.own(key, "digest", "run-A");
    store.commit(key, "digest", "run-A", &owner, generation).expect("ready commit should succeed");
    match store.claim(key, "digest", "run-B").expect("claim should not error") {
        ClaimOutcome::Ready { run_id } => assert_eq!(run_id, "run-A"),
        other => panic!("committed key must converge, got {other:?}"),
    }
    let outcome = store.claim(key, "other-digest", "run-C").expect("claim should not error");
    assert_eq!(name(&outcome), "Conflict", "foreign digest must conflict");
}

#[test]
fn foreign_release_is_an_idempotent_noop() {
    let mut store = Store::new();
    let key = "key-1";
    let (owner, generation) = store.own(key, "digest", "run-1");
    store.release(key, "someone-else", generation).expect("foreign release should succeed");
    assert!(store.has_claim(), "a foreign release must not delete the live claim");
    store.release(key, &owner, generation).expect("own release should succeed");
    assert!(!store.has_claim(), "a matching release must delete the claim");
}

#[test]
fn generations_increase_across_expiry_chains() {
    let mut store = Store::new();
    let key = "key-1";
    let (_, gen1) = store.own(key, "digest", "run-1");
    assert_eq!(gen1, 1, "fresh chain starts at generation 1");
    store.age_claim(0);
    match store.claim(key, "digest", "run-9").expect("adoption claim should win") {
        ClaimOutcome::Owner { run_id, generation, .. } => {
            assert_eq!(run_id.as_deref(), Some("run-1"), "adoption reuses the run id");
            assert_eq!(generation, 2, "adoption advances the generation");
        }
        other => panic!("expected adopting owner, got {other:?}"),
    }
}

#[test]
fn staged_adoption_leaves_the_predecessor_until_replacement() {
    let mut store = Store::new();
    let key = "key-1";
    store.pending = Slot::Holds(pending(key, "dead-owner", Some("run-A"), 0, 1));
    let plan = claim_durable_pending(
        key,
        "d",
        Some("run-B".to_string()),
        "adopting-owner".to_string(),
        store.ready_file(),
        store.pending_file(),
        Some(NOW),
        TTL,
    );
    // Deciding touches nothing: the predecessor stands until the replacement.
    match &store.pending {
        Slot::Holds(survivor) => {
            assert_eq!(survivor.run_id.as_deref(), Some("run-A"));
            assert_eq!(survivor.generation, 1);
        }
        _ => panic!("the predecessor must survive"),
    }
    match plan.step.expect("the claim is decided") {
        ClaimStep::Publish(published) => {
            assert_eq!(published.run_id.as_deref(), Some("run-A"));
            assert_eq!(published.generation, 2);
            assert_eq!(published.owner, "adopting-owner");
            assert_eq!(published.created_at_unix, NOW);
        }
        other => panic!("expected a publication, got {other:?}"),
    }
}

#[test]
fn stale_owner_commit_after_successor_failure_is_refused() {
    let mut store = Store::new();
    let key = "key-stale";
    let (old_owner, old_gen) = store.own(key, "digest", "run-old");
    store.release(key, &old_owner, old_gen).expect("release should succeed");
    let (new_owner, new_gen) = store.own(key, "digest", "run-new");
    assert_ne!((new_owner.clone(), new_gen), (old_owner.clone(), old_gen));
    let error = store
        .commit(key, "digest", "run-old", &old_owner, old_gen)
        .expect_err("stale owner commit must be refused");
    let words = error.message();
    assert!(words.contains("different claim") || words.contains("superseded"), "{words}");
    store
        .commit(key, "digest", "run-new", &new_owner, new_gen)
        .expect("current owner commit should succeed");
}

#[test]
fn superseded_commit_converges_or_fails_without_overwriting() {
    let mut store = Store::new();
    let key = "key-1";
    let (stale_owner, gen1) = store.own(key, "digest", "run-1");
    store.age_claim(0);
    let (new_owner, gen2) = store.own(key, "digest", "run-2");
    assert!(gen2 > gen1, "adoption advances the generation");
    let error = store
        .commit(key, "digest", "run-1", &stale_owner, gen1)
        .expect_err("superseded commit must not overwrite");
    assert!(matches!(error, StoreReadyError::Storage(_)), "{error:?}");
    let committed = store
        .commit(key, "digest", "run-1", &new_owner, gen2)
        .expect("current generation should commit");
    assert_eq!(committed, "run-1");
    let error = store
        .commit(key, "digest", "run-1", &stale_owner, gen1)
        .expect_err("stale commit must be refused even after the successor committed");
    assert!(matches!(error, StoreReadyError::Storage(_)), "{error:?}");
}

#[test]
fn digest_conflict_is_typed_and_never_overwrites() {
    let mut store = Store::new();
    let key = "key-1";
    let (owner, generation) = store.own(key, "digest-a", "run-1");
    let committed = store
        .commit(key, "digest-a", "run-1", &owner, generation)
        .expect("first commit should succeed");
    assert_eq!(committed, "run-1");
    let error = store
        .commit(key, "digest-b", "run-9", &owner, generation)
        .expect_err("a different digest must conflict");
    assert!(matches!(error, StoreReadyError::DigestConflict), "{error:?}");
    assert_eq!(store.load(key).expect("loads").expect("stays").run_id, "run-1");
    assert_eq!(idempotency_conflict().problem.status, 409);
    assert_eq!(idempotency_conflict().problem.detail, error.message());
}

#[test]
fn stale_owner_commit_is_refused_after_release_and_reclaim() {
    let mut store = Store::new();
    let key = "key-1";
    let (old_owner, old_generation) = store.own(key, "digest", "run-A");
    store.age_claim(0);
    let (successor, successor_generation) = store.own(key, "digest", "run-B");
    store.release(key, &successor, successor_generation).expect("successor release should succeed");
    let (fresh_owner, fresh_generation) = store.own(key, "digest", "run-C");
    assert_eq!(fresh_generation, 1, "a fresh chain starts at generation 1");
    let error = store
        .commit(key, "digest", "run-A", &old_owner, old_generation)
        .expect_err("the old owner must not commit against a different claim");
    assert!(matches!(error, StoreReadyError::Storage(_)), "{error:?}");
    let committed = store
        .commit(key, "digest", "run-C", &fresh_owner, fresh_generation)
        .expect("the current owner should commit");
    assert_eq!(committed, "run-C");
}

#[test]
fn commit_requires_a_live_matching_claim() {
    let mut store = Store::new();
    let key = "key-1";
    let (owner, generation) = store.own(key, "digest", "run-A");
    let error = store
        .commit(key, "digest", "run-B", &owner, generation)
        .expect_err("a mismatched reserved run must be refused");
    assert!(error.message().contains("reserved run"), "{error:?}");
    store.pending = Slot::Absent;
    let error = store
        .commit(key, "digest", "run-A", &owner, generation)
        .expect_err("an absent claim must be refused");
    assert!(error.message().contains("absent"), "{error:?}");
    assert!(matches!(store.ready, Slot::Absent), "no Ready may be published without a claim");
    let (owner, generation) = store.own(key, "digest", "run-A");
    store.pending = Slot::Torn;
    let error = store
        .commit(key, "digest", "run-A", &owner, generation)
        .expect_err("an unusable claim must be refused");
    assert!(error.message().contains("unusable"), "{error:?}");
    let mut reservationless = pending(key, "owner-none", None, NOW, 1);
    reservationless.digest = "digest".to_string();
    store.pending = Slot::Holds(reservationless);
    let error = store
        .commit(key, "digest", "run-A", "owner-none", 1)
        .expect_err("a None-reservation claim must be refused");
    assert!(error.message().contains("reserved run"), "{error:?}");
    assert!(store.load(key).expect("load should not fail").is_none());
}

#[test]
fn durability_model_survives_an_abrupt_process_stop() {
    let mut store = Store::new();
    let key = "key-1";
    let (owner, generation) = store.own(key, "digest", "run-A");
    store.commit(key, "digest", "run-A", &owner, generation).expect("ready commit should succeed");
    match store.claim(key, "digest", "run-B").expect("claim should not error") {
        ClaimOutcome::Ready { run_id } => assert_eq!(run_id, "run-A", "the mapping must survive the stop"),
        other => panic!("an abrupt stop must keep the committed mapping, got {other:?}"),
    }
}

#[test]
fn second_concurrent_claimant_is_peer() {
    let mut store = Store::new();
    let key = "key-1";
    let first = store.claim(key, "digest", "run-1").expect("first claim should win");
    assert_eq!(name(&first), "Owner");
    let second = store.claim(key, "digest", "run-2").expect("second claim should not error");
    assert_eq!(name(&second), "Peer", "live predecessor must report peer without overwriting its claim");
    match read_durable_pending(key, store.pending_file(), Some(store.now)) {
        PendingRead::Valid(record) => assert_eq!(record.run_id.as_deref(), Some("run-1")),
        other => panic!("expected the winning claim to survive, got {other:?}"),
    }
}

#[test]
fn caller_path_never_publishes_without_a_live_claim() {
    let mut store = Store::new();
    let key = "caller-absent-key";
    let error = store.commit(key, "digest", "run-A", "nobody", 1).expect_err("absent claim must be refused");
    assert!(error.message().contains("absent"), "{error:?}");
    assert!(store.load(key).expect("load should not fail").is_none());
    store.pending = Slot::Torn;
    let error = store.commit(key, "digest", "run-A", "nobody", 1).expect_err("unusable claim must be refused");
    assert!(error.message().contains("unusable"), "{error:?}");
    assert!(store.load(key).expect("load should not fail").is_none());
}

#[test]
fn old_owner_commit_rejected_after_reclaim() {
    let mut store = Store::new();
    let key = "caller-reclaim-key";
    let (old_owner, old_gen) = store.own(key, "digest", "run-old");
    store.release(key, &old_owner, old_gen).expect("old release should succeed");
    let (fresh_owner, fresh_gen) = store.own(key, "digest", "run-new");
    let error = store
        .commit(key, "digest", "run-old", &old_owner, old_gen)
        .expect_err("old owner must not commit after reclaim");
    let words = error.message();
    assert!(words.contains("different claim") || words.contains("superseded"), "{words}");
    let committed = store
        .commit(key, "digest", "run-new", &fresh_owner, fresh_gen)
        .expect("fresh owner should commit");
    assert_eq!(committed, "run-new");
}

#[test]
fn refusals_are_worded_exactly() {
    let mut store = Store::new();
    let key = "k";
    store.pending = Slot::Holds(pending(key, "A", Some("run-A"), NOW, 3));
    let words = |store: &mut Store, digest: &str, run: &str, owner: &str, generation: u64| {
        store.commit(key, digest, run, owner, generation).expect_err("must refuse").message()
    };
    assert_eq!(
        words(&mut store, "d", "run-A", "B", 3),
        "idempotency claim is owned by a different claim; commit refused"
    );
    assert_eq!(
        words(&mut store, "d", "run-A", "A", 2),
        "idempotency claim superseded by generation 3; commit refused"
    );
    assert_eq!(
        words(&mut store, "x", "run-A", "A", 3),
        "idempotency claim was admitted for different content; commit refused"
    );
    assert_eq!(
        words(&mut store, "d", "run-B", "A", 3),
        "idempotency claim has no matching reserved run; commit refused"
    );
    store.pending = Slot::Torn;
    let refusal = store.claim(key, "d", "run-A").expect_err("damage must refuse a claim");
    assert_eq!(refusal.problem.status, 500);
    assert_eq!(
        refusal.problem.detail,
        "failed to persist idempotency record: corrupt pending claim for key `k` (expected value at line 1); operator action required"
    );
}

#[test]
fn a_clock_that_cannot_be_read_refuses_every_decision() {
    let clock = "system clock is before the Unix epoch; refusing idempotency decision";
    let plan = claim_durable_pending(
        "k",
        "d",
        None,
        "o".to_string(),
        ReadyFile::Absent,
        PendingFile::Absent,
        None,
        TTL,
    );
    assert_eq!(plan.step.expect_err("must refuse").problem.detail, clock);
    let present = PendingFile::Present(pending("k", "o", None, NOW, 1));
    match read_durable_pending("k", present, None) {
        PendingRead::Unusable(detail) => assert_eq!(detail, clock),
        other => panic!("must be unusable, got {other:?}"),
    }
}

#[test]
fn generations_pass_everything_seen() {
    assert_eq!(pending_generation_from_parsed(0, 0), 1);
    assert_eq!(pending_generation_from_parsed(3, 7), 8);
    assert_eq!(pending_generation_from_parsed(9, 7), 10);
    assert_eq!(pending_generation_from_parsed(u64::MAX, 0), u64::MAX);
}

#[test]
fn a_waiter_converges_retries_or_conflicts() {
    let mut store = Store::new();
    let key = "key";
    let (owner, generation) = store.own(key, "digest", "run-A");
    store.commit(key, "digest", "run-A", &owner, generation).expect("commits");
    let claim = read_durable_pending(key, store.pending_file(), Some(NOW));
    match observe_peer("digest", store.load(key), claim, false) {
        WaitStep::Finish(Ok(WaitOutcome::Ready(run_id))) => assert_eq!(run_id, "run-A"),
        other => panic!("a waiter must converge, got {other:?}"),
    }
    let claim = read_durable_pending(key, store.pending_file(), Some(NOW));
    match observe_peer("other", store.load(key), claim, false) {
        WaitStep::Finish(Err(error)) => assert_eq!(error.problem.status, 409),
        other => panic!("other content must conflict, got {other:?}"),
    }
    store.ready = Slot::Absent;
    store.age_claim(0);
    let claim = read_durable_pending(key, store.pending_file(), Some(NOW));
    match observe_peer("digest", store.load(key), claim, false) {
        WaitStep::Recheck(after) => {
            match resolve_recheck("digest", after, store.load(key)).expect("retries") {
                WaitOutcome::RetryClaim { adopted_run_id } => {
                    assert_eq!(adopted_run_id.as_deref(), Some("run-A"))
                }
                other => panic!("must retry, got {other:?}"),
            }
        }
        other => panic!("an expired claim must be rechecked, got {other:?}"),
    }
}

#[test]
fn a_committed_key_keeps_its_run_through_any_history() {
    let mut store = Store::new();
    let (first, generation) = store.own("key", "digest", "run-A");
    for other in ["digest", "other"] {
        store.claim("key", other, "run-X").expect("a claim in between");
        let _ = store.release("key", "someone-else", generation);
        assert!(
            matches!(store.check("key", &first, generation, "digest"), Ok(OwnerCheck::Current)),
            "a live claim outlives every other owner"
        );
    }
    store.commit("key", "digest", "run-A", &first, generation).expect("the owner commits");
    for step in 0..4u64 {
        store.now += PAUSE;
        let _ = store.commit("key", "digest", "run-B", "stranger", step);
        let _ = store.release("key", &first, generation);
        match store.claim("key", "digest", "run-C").expect("a claim afterwards") {
            ClaimOutcome::Ready { run_id } => assert_eq!(run_id, "run-A"),
            other => panic!("the committed run answers, got {other:?}"),
        }
        assert!(matches!(store.claim("key", "other", "run-D"), Ok(ClaimOutcome::Conflict)));
    }
}
