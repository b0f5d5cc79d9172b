//! The admission, execution and commit of one keyed request, as a state
//! machine. The caller performs each [`Action`] and hands back what came of it
//! as an [`Event`]; the decisions, and every change of the in-memory table,
//! are taken here. A request without a key is executed at once and leaves no
//! trace.
use vstd::prelude::*;
use vstd::string::*;
use crate::auth;
use crate::digest;
use crate::error;
use crate::error::{ApiError, ApiHttpError};
use crate::header;
use crate::text;
use super::durable;
use super::durable::{ClaimOutcome, StoreReadyError};
use super::memory;
use super::memory::{IdempotencyEntry, IdempotencyTable};
use super::owner;
use super::owner::{OwnerCheck, WaitOutcome};
use super::record::DurableIdempotencyRecord;

verus! {

/// The bytes whose digest identifies a request: its scope, its target and its
/// body, parted by zero bytes.
pub open spec fn digest_input(scope: Seq<u8>, target: Seq<u8>, body: Seq<u8>) -> Seq<u8> {
    scope + seq![0u8] + target + seq![0u8] + body
}

fn push_bytes(out: &mut Vec<u8>, bytes: &[u8])
    ensures
        final(out)@ == old(out)@ + bytes@,
{
    let mut i: usize = 0;
    while i < bytes.len()
        invariant
            i <= bytes@.len(),
            out@ == old(out)@ + bytes@.take(i as int),
        decreases bytes.len() - i,
    {
        out.push(bytes[i]);
        i += 1;
        assert(bytes@.take(i as int) == bytes@.take(i - 1).push(bytes@[i - 1]));
    }
    assert(bytes@.take(bytes@.len() as int) == bytes@);
}

/// The digest that a keyed request is recognised by.
pub fn request_digest(scope: &str, target: &str, body: &[u8]) -> (r: String)
    ensures
        r@ == digest::hex_text(
            digest::sha256(digest_input(scope.spec_bytes(), target.spec_bytes(), body@)),
        ),
{
    let mut input: Vec<u8> = Vec::new();
    push_bytes(&mut input, scope.as_bytes());
    input.push(0);
    push_bytes(&mut input, target.as_bytes());
    input.push(0);
    push_bytes(&mut input, body);
    proof {
        let (s, t) = (scope.spec_bytes(), target.spec_bytes());
        assert(input@ == digest_input(s, t, body@));
    }
    digest::digest_hex(input.as_slice())
}

/// The key that the header's bytes carry, if they are text.
pub open spec fn key_of(bytes: Seq<u8>) -> Option<Seq<char>> {
    let key = text::trimmed(header::ascii_text(bytes));
    if key.len() == 0 {
        None
    } else {
        Some(key)
    }
}

/// Reads the idempotency key of a request: the header's text without white
/// space at either end, where an empty key counts as none.
pub fn idempotency_key(value: Option<&[u8]>) -> (r: Result<Option<String>, ApiHttpError>)
    ensures
        match r {
            Ok(key) => match value {
                None => key is None,
                Some(bytes) => header::all_visible(bytes@) && key.deep_view() == key_of(bytes@),
            },
            Err(refusal) => value is Some && !header::all_visible(value->0@) && refusal@
                == error::bad_request_problem("Idempotency-Key must be valid ASCII"@),
        },
{
    match value {
        None => Ok(None),
        Some(bytes) => match header::header_text(bytes) {
            None => Err(
                ApiHttpError::bad_request("Idempotency-Key must be valid ASCII".to_owned()),
            ),
            Some(raw) => {
                let key = text::trim(raw.as_str());
                if key.as_str().is_empty() {
                    Ok(None)
                } else {
                    Ok(Some(key))
                }
            },
        },
    }
}

/// Whether requests of this scope create a run.
pub open spec fn creates_run(scope: Seq<char>) -> bool {
    scope == "start_run"@ || scope == "fork_run"@
}

pub fn scope_creates_run(scope: &str) -> (r: bool)
    ensures
        r == creates_run(scope@),
{
    text::same_text(scope, "start_run") || text::same_text(scope, "fork_run")
}

/// A keyed request.
pub struct KeyedRequest {
    pub key: String,
    pub digest: String,
    /// The request creates a run, so a run-side record of the key is kept.
    pub creates_run: bool,
    /// The run id reserved for it before admission.
    pub reserved_run_id: Option<String>,
}

/// A request that changes a run, with or without a key.
pub enum Mutation {
    /// It is executed under its reservation; nothing is remembered of it.
    Unkeyed { reserved_run_id: Option<String> },
    Keyed(KeyedRequest),
}

/// The key that a header's value carries, if there is one that is not blank.
pub open spec fn sent_key(value: Option<Seq<u8>>) -> Option<Seq<char>> {
    match value {
        Some(bytes) => key_of(bytes),
        None => None,
    }
}

/// Reads a mutation from the header that may carry its key, from what
/// identifies its content, and from the run id reserved for it.
pub fn read_mutation(
    value: Option<&[u8]>,
    scope: &str,
    target: &str,
    body: &[u8],
    reserved_run_id: Option<String>,
) -> (r: Result<Mutation, ApiHttpError>)
    ensures
        r is Err <==> value is Some && !header::all_visible(value->0@),
        match r {
            Err(refusal) => refusal@ == error::bad_request_problem(
                "Idempotency-Key must be valid ASCII"@,
            ),
            Ok(Mutation::Unkeyed { reserved_run_id: kept }) => sent_key(auth::bytes_view(value))
                is None && kept == reserved_run_id,
            Ok(Mutation::Keyed(request)) => {
                &&& sent_key(auth::bytes_view(value)) == Some(request.key@)
                &&& request.digest@ == digest::hex_text(
                    digest::sha256(digest_input(scope.spec_bytes(), target.spec_bytes(), body@)),
                )
                &&& request.creates_run == creates_run(scope@)
                &&& request.reserved_run_id == reserved_run_id
            },
        },
{
    match idempotency_key(value) {
        Err(refusal) => Err(refusal),
        Ok(None) => Ok(Mutation::Unkeyed { reserved_run_id }),
        Ok(Some(key)) => Ok(
            Mutation::Keyed(
                KeyedRequest {
                    key,
                    digest: request_digest(scope, target, body),
                    creates_run: scope_creates_run(scope),
                    reserved_run_id,
                },
            ),
        ),
    }
}

/// The limits of the in-memory table, fixed at boot.
#[derive(Clone, Copy)]
pub struct Limits {
    pub ttl_secs: u64,
    pub max_entries: usize,
}

/// The identity of a durable claim.
#[derive(Debug)]
pub struct ClaimId {
    pub owner: String,
    pub generation: u64,
}

/// Why a keyed request is refused.
#[derive(Debug)]
pub enum Refusal {
    /// The key belongs to a different request.
    Conflict,
    /// The table is full of requests in progress.
    Saturated,
    /// The key's claim could not be released.
    InProgress,
    /// The mapping could not be made durable.
    Unpersisted(String),
    /// The mapping could not be loaded.
    Unloadable(String),
    /// The store cannot be read.
    Internal(String),
    /// The run service refused.
    Service(ApiError),
    /// A protocol step was refused with its own answer.
    Answered(ApiHttpError),
    /// An event came that the state does not wait for.
    OutOfStep,
}

impl Refusal {
    pub open spec fn problem(self) -> error::ProblemModel {
        match self {
            Refusal::Conflict => error::conflict_problem(durable::conflict_detail()),
            Refusal::Saturated => error::unavailable_problem(
                "too many idempotent requests are still in progress"@,
            ),
            Refusal::InProgress => error::unavailable_problem(owner::in_progress_detail()),
            Refusal::Unpersisted(detail) => error::internal_problem(
                "failed to persist idempotency record: "@ + detail@,
            ),
            Refusal::Unloadable(detail) => error::internal_problem(
                "failed to load idempotency record: "@ + detail@,
            ),
            Refusal::Internal(detail) => error::internal_problem(detail@),
            Refusal::Service(refused) => error::api_problem(refused),
            Refusal::Answered(answer) => answer@,
            Refusal::OutOfStep => error::internal_problem(
                "idempotency admission must wait or assign an owner"@,
            ),
        }
    }

    /// The answer to the client.
    pub fn into_error(self) -> (r: ApiHttpError)
        ensures
            r@ == self.problem(),
    {
        match self {
            Refusal::Conflict => durable::idempotency_conflict(),
            Refusal::Saturated => ApiHttpError::service_unavailable(
                "too many idempotent requests are still in progress".to_owned(),
            ),
            Refusal::InProgress => owner::in_progress_elsewhere(),
            Refusal::Unpersisted(detail) => {
                let mut message = "failed to persist idempotency record: ".to_owned();
                message.append(detail.as_str());
                ApiHttpError::internal(message)
            },
            Refusal::Unloadable(detail) => owner::load_failure(detail.as_str()),
            Refusal::Internal(detail) => ApiHttpError::internal(detail),
            Refusal::Service(refused) => ApiHttpError::from_api(refused),
            Refusal::Answered(answer) => answer,
            Refusal::OutOfStep => ApiHttpError::internal(
                "idempotency admission must wait or assign an owner".to_owned(),
            ),
        }
    }
}

/// What follows the release of a claim that was never executed.
#[derive(Debug)]
pub enum AfterRelease {
    Conflict,
    Replay(String),
    WaitLocal { owner_id: u128 },
}

/// Where a keyed request stands. `carried` is the run id that an owner left
/// behind and that a new claim takes over.
#[derive(Debug)]
pub enum Phase {
    /// Executing a request that has no key.
    ExecutingUnkeyed,
    /// About to consult the in-memory table.
    Lookup { carried: Option<String> },
    /// Waiting for the request that this process is executing for the key.
    WaitingLocal { carried: Option<String> },
    LoadingReady { carried: Option<String> },
    ScanningOrphans,
    Claiming { carried: Option<String> },
    WaitingPeer { carried: Option<String> },
    ReleasingUnused { carried: Option<String>, then: AfterRelease },
    Rechecking {
        carried: Option<String>,
        claim: ClaimId,
        owner_id: u128,
        adopted: Option<String>,
    },
    Executing { claim: ClaimId, owner_id: u128 },
    ReleasingFailed { refused: ApiError, wake: Option<u128> },
    Recording { claim: ClaimId, owner_id: u128, run_id: String },
    Committing { claim: ClaimId, owner_id: u128, run_id: String },
    SettlingSurplus { claim: ClaimId, owner_id: u128, committed: String },
    ReleasingConflict { owner_id: u128, run_id: String },
    SettlingConflict { owner_id: u128 },
    InspectingReady { claim: ClaimId, owner_id: u128, run_id: String, detail: String },
    SettlingStale { claim: ClaimId, owner_id: u128, detail: String },
    ReleasingStale { owner_id: u128, detail: String },
    ReleasingCommitted { committed: String, wake: Option<u128> },
    Done,
}

/// What is to be done next for a keyed request.
#[derive(Debug)]
#[allow(inconsistent_fields)]
pub enum Action {
    /// Take the table lock and consult the table.
    Consult,
    /// Wait until the request of this owner is over.
    WaitLocal { owner_id: u128 },
    LoadReady,
    ScanOrphans,
    Claim { reserved_run_id: Option<String> },
    WaitPeer,
    CheckOwner { claim: ClaimId },
    Execute { run_id: Option<String> },
    WriteOrphan { run_id: String },
    Commit { run_id: String, claim: ClaimId },
    CancelRun { run_id: String },
    Release { claim: ClaimId },
    /// Answer the request: with the snapshot of this run, or with a refusal.
    Finish(Result<String, Refusal>),
}

/// What came of an action.
#[derive(Debug)]
pub enum Event {
    Woken,
    ReadyLoaded(Result<Option<DurableIdempotencyRecord>, String>),
    /// The mapping was not looked at, because the work was lost.
    LoadLost(String),
    /// The run and the digest of the run-side record, if one was found.
    OrphansScanned(Result<Option<(String, String)>, String>),
    Claimed(Result<ClaimOutcome, ApiHttpError>),
    PeerWaited(Result<WaitOutcome, ApiHttpError>),
    OwnerChecked(Result<OwnerCheck, String>),
    Executed(Result<String, ApiError>),
    OrphanWritten,
    Committed(Result<String, StoreReadyError>),
    RunCancelled(Result<(), ApiError>),
    /// Whether the release succeeded.
    Released(bool),
}

/// One step of a keyed request.
#[derive(Debug)]
pub struct Step {
    pub phase: Phase,
    pub action: Action,
    /// The waiters of this owner are woken.
    pub wake: Option<u128>,
}

/// The in-memory table, as a map.
pub type Entries = Map<Seq<char>, IdempotencyEntry>;

pub open spec fn or_else(first: Option<String>, second: Option<String>) -> Option<String> {
    if first is Some {
        first
    } else {
        second
    }
}

fn first_of(first: Option<String>, second: Option<String>) -> (r: Option<String>)
    ensures
        r == or_else(first, second),
{
    match first {
        Some(run_id) => Some(run_id),
        None => second,
    }
}

pub open spec fn finish(outcome: Result<String, Refusal>) -> Step {
    Step { phase: Phase::Done, action: Action::Finish(outcome), wake: None }
}

/// What consulting the table decides: a known run answers, a request in
/// progress is waited for, and either of them conflicts when it is for other
/// content; without an entry the durable store is asked.
pub open spec fn lookup(request: KeyedRequest, entries: Entries, carried: Option<String>) -> Step {
    if !entries.contains_key(request.key@) {
        Step { phase: Phase::LoadingReady { carried }, action: Action::LoadReady, wake: None }
    } else {
        match entries[request.key@] {
            IdempotencyEntry::Ready { digest, run_id, .. } => if digest@ != request.digest@ {
                finish(Err(Refusal::Conflict))
            } else {
                finish(Ok(run_id))
            },
            IdempotencyEntry::Pending { digest, owner_id, .. } => if digest@ != request.digest@ {
                finish(Err(Refusal::Conflict))
            } else {
                Step {
                    phase: Phase::WaitingLocal { carried },
                    action: Action::WaitLocal { owner_id },
                    wake: None,
                }
            },
        }
    }
}

/// Consults the table, pruned first.
pub fn consult(
    request: &KeyedRequest,
    carried: Option<String>,
    table: &mut IdempotencyTable,
    limits: Limits,
    now: u64,
) -> (step: Step)
    requires
        old(table).wf(),
    ensures
        final(table).wf(),
        memory::pruned(
            old(table)@,
            final(table)@,
            now,
            limits.ttl_secs,
            limits.max_entries as nat,
        ),
        step == lookup(*request, final(table)@, carried),
{
    memory::prune_idempotency(table, now, limits.ttl_secs, limits.max_entries);
    match table.get(request.key.as_str()) {
        None => Step {
            phase: Phase::LoadingReady { carried },
            action: Action::LoadReady,
            wake: None,
        },
        Some(IdempotencyEntry::Ready { digest, run_id, .. }) => {
            let outcome = if !text::same_text(digest.as_str(), request.digest.as_str()) {
                Err(Refusal::Conflict)
            } else {
                Ok(run_id.clone())
            };
            Step { phase: Phase::Done, action: Action::Finish(outcome), wake: None }
        },
        Some(IdempotencyEntry::Pending { digest, owner_id, .. }) => {
            if !text::same_text(digest.as_str(), request.digest.as_str()) {
                Step {
                    phase: Phase::Done,
                    action: Action::Finish(Err(Refusal::Conflict)),
                    wake: None,
                }
            } else {
                Step {
                    phase: Phase::WaitingLocal { carried },
                    action: Action::WaitLocal { owner_id: *owner_id },
                    wake: None,
                }
            }
        },
    }
}

/// Whether the key's entry is the request that `owner` executes.
pub open spec fn owns_entry(entries: Entries, key: Seq<char>, owner: u128) -> bool {
    entries.contains_key(key) && entries[key].pending_of(owner)
}

/// The table without the request that `owner` executes.
pub open spec fn withdrawn(entries: Entries, key: Seq<char>, owner: u128) -> Entries {
    if owns_entry(entries, key, owner) {
        entries.remove(key)
    } else {
        entries
    }
}

/// Whose waiters are woken when the request of `owner` is withdrawn.
pub open spec fn woken(entries: Entries, key: Seq<char>, owner: u128) -> Option<u128> {
    if owns_entry(entries, key, owner) {
        Some(owner)
    } else {
        None
    }
}

/// A refusal after execution began: the entry is withdrawn and its waiters are
/// woken.
pub open spec fn abandon(
    request: KeyedRequest,
    entries: Entries,
    owner_id: u128,
    refusal: Refusal,
) -> (Step, Entries) {
    (
        Step {
            phase: Phase::Done,
            action: Action::Finish(Err(refusal)),
            wake: woken(entries, request.key@, owner_id),
        },
        withdrawn(entries, request.key@, owner_id),
    )
}

/// A run that is known for the key: the table remembers it and it answers.
pub open spec fn converge(
    request: KeyedRequest,
    entries: Entries,
    digest: String,
    run_id: String,
    now: u64,
) -> (Step, Entries) {
    (
        finish(Ok(run_id)),
        entries.insert(
            request.key@,
            IdempotencyEntry::Ready { digest, created_at: now, run_id },
        ),
    )
}

/// The committed run is published in memory, and then the claim is released.
pub open spec fn publish(
    request: KeyedRequest,
    entries: Entries,
    claim: ClaimId,
    owner_id: u128,
    committed: String,
    now: u64,
) -> (Step, Entries) {
    (
        Step {
            phase: Phase::ReleasingCommitted {
                committed,
                wake: woken(entries, request.key@, owner_id),
            },
            action: Action::Release { claim },
            wake: None,
        },
        withdrawn(entries, request.key@, owner_id).insert(
            request.key@,
            IdempotencyEntry::Ready { digest: request.digest, created_at: now, run_id: committed },
        ),
    )
}

/// The claim is ours: the table is looked at again before anything is
/// executed. An entry that appeared meanwhile makes us release the claim; a
/// full table refuses and keeps the claim, so that a retry rejoins it.
pub open spec fn register(
    request: KeyedRequest,
    entries: Entries,
    carried: Option<String>,
    claim: ClaimId,
    adopted: Option<String>,
    limits: Limits,
    now: u64,
    fresh_owner: u128,
) -> (Step, Entries) {
    if entries.contains_key(request.key@) {
        let then = match entries[request.key@] {
            IdempotencyEntry::Ready { digest, run_id, .. } => if digest@ != request.digest@ {
                AfterRelease::Conflict
            } else {
                AfterRelease::Replay(run_id)
            },
            IdempotencyEntry::Pending { digest, owner_id, .. } => if digest@ != request.digest@ {
                AfterRelease::Conflict
            } else {
                AfterRelease::WaitLocal { owner_id }
            },
        };
        (
            Step {
                phase: Phase::ReleasingUnused { carried, then },
                action: Action::Release { claim },
                wake: None,
            },
            entries,
        )
    } else if entries.len() >= limits.max_entries {
        (finish(Err(Refusal::Saturated)), entries)
    } else {
        (
            Step {
                phase: Phase::Rechecking { carried, claim, owner_id: fresh_owner, adopted },
                action: Action::CheckOwner { claim },
                wake: None,
            },
            entries.insert(
                request.key@,
                IdempotencyEntry::Pending {
                    digest: request.digest,
                    owner_id: fresh_owner,
                    created_at: now,
                },
            ),
        )
    }
}

/// The next claim, under the run id that an earlier owner left behind or else
/// under the reserved one.
pub open spec fn claim_next(request: KeyedRequest, carried: Option<String>) -> Step {
    Step {
        phase: Phase::Claiming { carried },
        action: Action::Claim { reserved_run_id: or_else(carried, request.reserved_run_id) },
        wake: None,
    }
}

/// Back to the table.
pub open spec fn consult_again(carried: Option<String>) -> Step {
    Step { phase: Phase::Lookup { carried }, action: Action::Consult, wake: None }
}

/// The commit of a run that was executed.
pub open spec fn commit_next(claim: ClaimId, owner_id: u128, run_id: String) -> Step {
    Step {
        phase: Phase::Committing { claim, owner_id, run_id },
        action: Action::Commit { run_id, claim },
        wake: None,
    }
}

/// What a step of the state machine decides before execution begins.
pub open spec fn before_execution(
    phase: Phase,
    event: Event,
    request: KeyedRequest,
    entries: Entries,
    limits: Limits,
    now: u64,
    fresh_owner: u128,
) -> (Step, Entries) {
    match (phase, event) {
        (Phase::WaitingLocal { carried }, Event::Woken) => (consult_again(carried), entries),
        (Phase::LoadingReady { carried }, Event::ReadyLoaded(loaded)) => match loaded {
            Err(detail) => (finish(Err(Refusal::Unloadable(detail))), entries),
            Ok(Some(record)) => if record.digest@ != request.digest@ {
                (finish(Err(Refusal::Conflict)), entries)
            } else {
                converge(request, entries, record.digest, record.run_id, now)
            },
            Ok(None) => if carried is None && request.creates_run {
                (
                    Step {
                        phase: Phase::ScanningOrphans,
                        action: Action::ScanOrphans,
                        wake: None,
                    },
                    entries,
                )
            } else {
                (claim_next(request, carried), entries)
            },
        },
        (Phase::LoadingReady { .. }, Event::LoadLost(detail)) => (
            finish(Err(Refusal::Internal(detail))),
            entries,
        ),
        (Phase::ScanningOrphans, Event::OrphansScanned(scanned)) => match scanned {
            Err(detail) => (finish(Err(Refusal::Internal(detail))), entries),
            Ok(Some((run_id, digest))) => if digest@ != request.digest@ {
                (finish(Err(Refusal::Conflict)), entries)
            } else {
                (claim_next(request, Some(run_id)), entries)
            },
            Ok(None) => (claim_next(request, None), entries),
        },
        (Phase::Claiming { carried }, Event::Claimed(claimed)) => match claimed {
            Err(answer) => (finish(Err(Refusal::Answered(answer))), entries),
            Ok(ClaimOutcome::Peer) => (
                Step {
                    phase: Phase::WaitingPeer { carried },
                    action: Action::WaitPeer,
                    wake: None,
                },
                entries,
            ),
            Ok(ClaimOutcome::Owner { run_id, owner, generation }) => register(
                request,
                entries,
                carried,
                ClaimId { owner, generation },
                run_id,
                limits,
                now,
                fresh_owner,
            ),
            Ok(ClaimOutcome::Ready { run_id }) => converge(
                request,
                entries,
                request.digest,
                run_id,
                now,
            ),
            Ok(ClaimOutcome::Conflict) => (finish(Err(Refusal::Conflict)), entries),
        },
        (Phase::WaitingPeer { carried }, Event::PeerWaited(waited)) => match waited {
            Err(answer) => (finish(Err(Refusal::Answered(answer))), entries),
            Ok(WaitOutcome::Ready(run_id)) => converge(
                request,
                entries,
                request.digest,
                run_id,
                now,
            ),
            Ok(WaitOutcome::RetryClaim { adopted_run_id }) => (
                consult_again(or_else(carried, adopted_run_id)),
                entries,
            ),
        },
        (Phase::ReleasingUnused { carried, then }, Event::Released(released)) => if !released {
            (finish(Err(Refusal::InProgress)), entries)
        } else {
            match then {
                AfterRelease::Conflict => (finish(Err(Refusal::Conflict)), entries),
                AfterRelease::Replay(run_id) => (finish(Ok(run_id)), entries),
                AfterRelease::WaitLocal { owner_id } => (
                    Step {
                        phase: Phase::WaitingLocal { carried },
                        action: Action::WaitLocal { owner_id },
                        wake: None,
                    },
                    entries,
                ),
            }
        },
        (
            Phase::Rechecking { carried, claim, owner_id, adopted },
            Event::OwnerChecked(checked),
        ) => match checked {
            Err(detail) => (finish(Err(Refusal::Internal(detail))), entries),
            Ok(OwnerCheck::Current) => (
                Step {
                    phase: Phase::Executing { claim, owner_id },
                    action: Action::Execute { run_id: adopted },
                    wake: None,
                },
                entries,
            ),
            Ok(_) => (
                Step {
                    wake: woken(entries, request.key@, owner_id),
                    ..consult_again(or_else(carried, adopted))
                },
                withdrawn(entries, request.key@, owner_id),
            ),
        },
        _ => (finish(Err(Refusal::OutOfStep)), entries),
    }
}

/// What a step of the state machine decides from execution on.
pub open spec fn from_execution(
    phase: Phase,
    event: Event,
    request: KeyedRequest,
    entries: Entries,
    now: u64,
) -> (Step, Entries) {
    match (phase, event) {
        (Phase::Executing { claim, owner_id }, Event::Executed(executed)) => match executed {
            Err(refused) => (
                Step {
                    phase: Phase::ReleasingFailed {
                        refused,
                        wake: woken(entries, request.key@, owner_id),
                    },
                    action: Action::Release { claim },
                    wake: None,
                },
                withdrawn(entries, request.key@, owner_id),
            ),
            Ok(run_id) => if request.creates_run {
                (
                    Step {
                        phase: Phase::Recording { claim, owner_id, run_id },
                        action: Action::WriteOrphan { run_id },
                        wake: None,
                    },
                    entries,
                )
            } else {
                (commit_next(claim, owner_id, run_id), entries)
            },
        },
        (Phase::ReleasingFailed { refused, wake }, Event::Released(released)) => (
            Step {
                wake,
                ..finish(
                    Err(
                        if released {
                            Refusal::Service(refused)
                        } else {
                            Refusal::InProgress
                        },
                    ),
                )
            },
            entries,
        ),
        (Phase::Recording { claim, owner_id, run_id }, Event::OrphanWritten) => (
            commit_next(claim, owner_id, run_id),
            entries,
        ),
        (Phase::Committing { claim, owner_id, run_id }, Event::Committed(committed)) => {
            match committed {
                Ok(winner) => if winner@ == run_id@ {
                    publish(request, entries, claim, owner_id, winner, now)
                } else {
                    (
                        Step {
                            phase: Phase::SettlingSurplus { claim, owner_id, committed: winner },
                            action: Action::CancelRun { run_id },
                            wake: None,
                        },
                        entries,
                    )
                },
                Err(StoreReadyError::DigestConflict) => (
                    Step {
                        phase: Phase::ReleasingConflict { owner_id, run_id },
                        action: Action::Release { claim },
                        wake: None,
                    },
                    entries,
                ),
                Err(StoreReadyError::Storage(detail)) => (
                    Step {
                        phase: Phase::InspectingReady { claim, owner_id, run_id, detail },
                        action: Action::LoadReady,
                        wake: None,
                    },
                    entries,
                ),
            }
        },
        (
            Phase::SettlingSurplus { claim, owner_id, committed },
            Event::RunCancelled(cancelled),
        ) => match cancelled {
            Ok(()) => publish(request, entries, claim, owner_id, committed, now),
            Err(refused) => abandon(request, entries, owner_id, Refusal::Service(refused)),
        },
        (Phase::ReleasingConflict { owner_id, run_id }, Event::Released(released)) => if released {
            (
                Step {
                    phase: Phase::SettlingConflict { owner_id },
                    action: Action::CancelRun { run_id },
                    wake: None,
                },
                entries,
            )
        } else {
            abandon(request, entries, owner_id, Refusal::InProgress)
        },
        (Phase::SettlingConflict { owner_id }, Event::RunCancelled(cancelled)) => abandon(
            request,
            entries,
            owner_id,
            match cancelled {
                Ok(()) => Refusal::Conflict,
                Err(refused) => Refusal::Service(refused),
            },
        ),
        (
            Phase::InspectingReady { claim, owner_id, run_id, detail },
            Event::ReadyLoaded(loaded),
        ) => if loaded matches Ok(Some(record)) && record.digest@ == request.digest@
            && record.run_id@ != run_id@ {
            (
                Step {
                    phase: Phase::SettlingStale { claim, owner_id, detail },
                    action: Action::CancelRun { run_id },
                    wake: None,
                },
                entries,
            )
        } else {
            abandon(request, entries, owner_id, Refusal::Unpersisted(detail))
        },
        (Phase::InspectingReady { owner_id, detail, .. }, Event::LoadLost(_)) => abandon(
            request,
            entries,
            owner_id,
            Refusal::Unpersisted(detail),
        ),
        (Phase::SettlingStale { claim, owner_id, detail }, Event::RunCancelled(cancelled)) => {
            match cancelled {
                Ok(()) => (
                    Step {
                        phase: Phase::ReleasingStale { owner_id, detail },
                        action: Action::Release { claim },
                        wake: None,
                    },
                    entries,
                ),
                Err(refused) => abandon(request, entries, owner_id, Refusal::Service(refused)),
            }
        },
        (Phase::ReleasingStale { owner_id, detail }, Event::Released(_)) => abandon(
            request,
            entries,
            owner_id,
            Refusal::Unpersisted(detail),
        ),
        (Phase::ReleasingCommitted { committed, wake }, Event::Released(released)) => (
            Step {
                wake,
                ..finish(
                    if released {
                        Ok(committed)
                    } else {
                        Err(Refusal::InProgress)
                    },
                )
            },
            entries,
        ),
        _ => (finish(Err(Refusal::OutOfStep)), entries),
    }
}

/// The phases from execution on.
pub open spec fn began(phase: Phase) -> bool {
    phase is Executing || phase is ReleasingFailed || phase is Recording || phase is Committing
        || phase is SettlingSurplus || phase is ReleasingConflict || phase is SettlingConflict
        || phase is InspectingReady || phase is SettlingStale || phase is ReleasingStale
        || phase is ReleasingCommitted
}

/// One step of a keyed request.
pub open spec fn transition(
    phase: Phase,
    event: Event,
    request: KeyedRequest,
    entries: Entries,
    limits: Limits,
    now: u64,
    fresh_owner: u128,
) -> (Step, Entries) {
    if began(phase) {
        from_execution(phase, event, request, entries, now)
    } else {
        before_execution(phase, event, request, entries, limits, now, fresh_owner)
    }
}

fn finished(outcome: Result<String, Refusal>) -> (r: Step)
    ensures
        r == finish(outcome),
{
    Step { phase: Phase::Done, action: Action::Finish(outcome), wake: None }
}

impl ClaimId {
    fn copy(&self) -> (r: ClaimId)
        ensures
            r == *self,
    {
        ClaimId { owner: self.owner.clone(), generation: self.generation }
    }
}

fn withdraw_entry(request: &KeyedRequest, table: &mut IdempotencyTable, owner_id: u128) -> (r:
    Option<u128>)
    requires
        old(table).wf(),
    ensures
        final(table).wf(),
        r == woken(old(table)@, request.key@, owner_id),
        final(table)@ == withdrawn(old(table)@, request.key@, owner_id),
{
    if table.withdraw(request.key.as_str(), owner_id) {
        Some(owner_id)
    } else {
        None
    }
}

fn abandon_request(
    request: &KeyedRequest,
    table: &mut IdempotencyTable,
    owner_id: u128,
    refusal: Refusal,
) -> (r: Step)
    requires
        old(table).wf(),
    ensures
        final(table).wf(),
        (r, final(table)@) == abandon(*request, old(table)@, owner_id, refusal),
{
    let wake = withdraw_entry(request, table, owner_id);
    Step { phase: Phase::Done, action: Action::Finish(Err(refusal)), wake }
}

fn converge_on(
    request: &KeyedRequest,
    table: &mut IdempotencyTable,
    digest: String,
    run_id: String,
    now: u64,
) -> (r: Step)
    requires
        old(table).wf(),
    ensures
        final(table).wf(),
        (r, final(table)@) == converge(*request, old(table)@, digest, run_id, now),
{
    table.insert(
        &request.key,
        IdempotencyEntry::Ready { digest, created_at: now, run_id: run_id.clone() },
    );
    finished(Ok(run_id))
}

fn publish_commit(
    request: &KeyedRequest,
    table: &mut IdempotencyTable,
    claim: ClaimId,
    owner_id: u128,
    committed: String,
    now: u64,
) -> (r: Step)
    requires
        old(table).wf(),
    ensures
        final(table).wf(),
        (r, final(table)@) == publish(*request, old(table)@, claim, owner_id, committed, now),
{
    let wake = withdraw_entry(request, table, owner_id);
    table.insert(
        &request.key,
        IdempotencyEntry::Ready {
            digest: request.digest.clone(),
            created_at: now,
            run_id: committed.clone(),
        },
    );
    Step {
        phase: Phase::ReleasingCommitted { committed, wake },
        action: Action::Release { claim },
        wake: None,
    }
}

fn register_claim(
    request: &KeyedRequest,
    table: &mut IdempotencyTable,
    carried: Option<String>,
    claim: ClaimId,
    adopted: Option<String>,
    limits: Limits,
    now: u64,
    fresh_owner: u128,
) -> (r: Step)
    requires
        old(table).wf(),
    ensures
        final(table).wf(),
        (r, final(table)@) == register(
            *request,
            old(table)@,
            carried,
            claim,
            adopted,
            limits,
            now,
            fresh_owner,
        ),
{
    let present = match table.get(request.key.as_str()) {
        None => None,
        Some(IdempotencyEntry::Ready { digest, run_id, .. }) => {
            if !text::same_text(digest.as_str(), request.digest.as_str()) {
                Some(AfterRelease::Conflict)
            } else {
                Some(AfterRelease::Replay(run_id.clone()))
            }
        },
        Some(IdempotencyEntry::Pending { digest, owner_id, .. }) => {
            if !text::same_text(digest.as_str(), request.digest.as_str()) {
                Some(AfterRelease::Conflict)
            } else {
                Some(AfterRelease::WaitLocal { owner_id: *owner_id })
            }
        },
    };
    match present {
        Some(then) => Step {
            phase: Phase::ReleasingUnused { carried, then },
            action: Action::Release { claim },
            wake: None,
        },
        None => {
            if table.len() >= limits.max_entries {
                return finished(Err(Refusal::Saturated));
            }
            table.insert(
                &request.key,
                IdempotencyEntry::Pending {
                    digest: request.digest.clone(),
                    owner_id: fresh_owner,
                    created_at: now,
                },
            );
            let checked = claim.copy();
            Step {
                phase: Phase::Rechecking { carried, claim, owner_id: fresh_owner, adopted },
                action: Action::CheckOwner { claim: checked },
                wake: None,
            }
        },
    }
}

fn claim_step(request: &KeyedRequest, carried: Option<String>) -> (r: Step)
    ensures
        r == claim_next(*request, carried),
{
    let reserved_run_id = first_of(
        text::copy_option(&carried),
        text::copy_option(&request.reserved_run_id),
    );
    Step {
        phase: Phase::Claiming { carried },
        action: Action::Claim { reserved_run_id },
        wake: None,
    }
}

fn commit_step(claim: ClaimId, owner_id: u128, run_id: String) -> (r: Step)
    ensures
        r == commit_next(claim, owner_id, run_id),
{
    let action = Action::Commit { run_id: run_id.clone(), claim: claim.copy() };
    Step { phase: Phase::Committing { claim, owner_id, run_id }, action, wake: None }
}

fn advance_admission(
    phase: Phase,
    event: Event,
    request: &KeyedRequest,
    table: &mut IdempotencyTable,
    limits: Limits,
    now: u64,
    fresh_owner: u128,
) -> (step: Step)
    requires
        old(table).wf(),
    ensures
        final(table).wf(),
        (step, final(table)@) == before_execution(
            phase,
            event,
            *request,
            old(table)@,
            limits,
            now,
            fresh_owner,
        ),
{
    match (phase, event) {
        (Phase::WaitingLocal { carried }, Event::Woken) => Step {
            phase: Phase::Lookup { carried },
            action: Action::Consult,
            wake: None,
        },
        (Phase::LoadingReady { carried }, Event::ReadyLoaded(loaded)) => match loaded {
            Err(detail) => finished(Err(Refusal::Unloadable(detail))),
            Ok(Some(record)) => {
                if !text::same_text(record.digest.as_str(), request.digest.as_str()) {
                    finished(Err(Refusal::Conflict))
                } else {
                    converge_on(request, table, record.digest, record.run_id, now)
                }
            },
            Ok(None) => {
                if carried.is_none() && request.creates_run {
                    Step { phase: Phase::ScanningOrphans, action: Action::ScanOrphans, wake: None }
                } else {
                    claim_step(request, carried)
                }
            },
        },
        (Phase::LoadingReady { .. }, Event::LoadLost(detail)) => finished(
            Err(Refusal::Internal(detail)),
        ),
        (Phase::ScanningOrphans, Event::OrphansScanned(scanned)) => match scanned {
            Err(detail) => finished(Err(Refusal::Internal(detail))),
            Ok(Some((run_id, digest))) => {
                if !text::same_text(digest.as_str(), request.digest.as_str()) {
                    finished(Err(Refusal::Conflict))
                } else {
                    claim_step(request, Some(run_id))
                }
            },
            Ok(None) => claim_step(request, None),
        },
        (Phase::Claiming { carried }, Event::Claimed(claimed)) => match claimed {
            Err(answer) => finished(Err(Refusal::Answered(answer))),
            Ok(ClaimOutcome::Peer) => Step {
                phase: Phase::WaitingPeer { carried },
                action: Action::WaitPeer,
                wake: None,
            },
            Ok(ClaimOutcome::Owner { run_id, owner, generation }) => register_claim(
                request,
                table,
                carried,
                ClaimId { owner, generation },
                run_id,
                limits,
                now,
                fresh_owner,
            ),
            Ok(ClaimOutcome::Ready { run_id }) => converge_on(
                request,
                table,
                request.digest.clone(),
                run_id,
                now,
            ),
            Ok(ClaimOutcome::Conflict) => finished(Err(Refusal::Conflict)),
        },
        (Phase::WaitingPeer { carried }, Event::PeerWaited(waited)) => match waited {
            Err(answer) => finished(Err(Refusal::Answered(answer))),
            Ok(WaitOutcome::Ready(run_id)) => converge_on(
                request,
                table,
                request.digest.clone(),
                run_id,
                now,
            ),
            Ok(WaitOutcome::RetryClaim { adopted_run_id }) => Step {
                phase: Phase::Lookup { carried: first_of(carried, adopted_run_id) },
                action: Action::Consult,
                wake: None,
            },
        },
        (Phase::ReleasingUnused { carried, then }, Event::Released(released)) => {
            if !released {
                return finished(Err(Refusal::InProgress));
            }
            match then {
                AfterRelease::Conflict => finished(Err(Refusal::Conflict)),
                AfterRelease::Replay(run_id) => finished(Ok(run_id)),
                AfterRelease::WaitLocal { owner_id } => Step {
                    phase: Phase::WaitingLocal { carried },
                    action: Action::WaitLocal { owner_id },
                    wake: None,
                },
            }
        },
        (
            Phase::Rechecking { carried, claim, owner_id, adopted },
            Event::OwnerChecked(checked),
        ) => match checked {
            Err(detail) => finished(Err(Refusal::Internal(detail))),
            Ok(OwnerCheck::Current) => Step {
                phase: Phase::Executing { claim, owner_id },
                action: Action::Execute { run_id: adopted },
                wake: None,
            },
            Ok(OwnerCheck::Superseded) | Ok(OwnerCheck::Absent) => {
                let wake = withdraw_entry(request, table, owner_id);
                Step {
                    phase: Phase::Lookup { carried: first_of(carried, adopted) },
                    action: Action::Consult,
                    wake,
                }
            },
        },
        _ => finished(Err(Refusal::OutOfStep)),
    }
}

fn advance_execution(
    phase: Phase,
    event: Event,
    request: &KeyedRequest,
    table: &mut IdempotencyTable,
    now: u64,
) -> (step: Step)
    requires
        old(table).wf(),
    ensures
        final(table).wf(),
        (step, final(table)@) == from_execution(phase, event, *request, old(table)@, now),
{
    match (phase, event) {
        (Phase::Executing { claim, owner_id }, Event::Executed(executed)) => match executed {
            Err(refused) => {
                let wake = withdraw_entry(request, table, owner_id);
                Step {
                    phase: Phase::ReleasingFailed { refused, wake },
                    action: Action::Release { claim },
                    wake: None,
                }
            },
            Ok(run_id) => {
                if request.creates_run {
                    let action = Action::WriteOrphan { run_id: run_id.clone() };
                    Step { phase: Phase::Recording { claim, owner_id, run_id }, action, wake: None }
                } else {
                    commit_step(claim, owner_id, run_id)
                }
            },
        },
        (Phase::ReleasingFailed { refused, wake }, Event::Released(released)) => {
            let refusal = if released {
                Refusal::Service(refused)
            } else {
                Refusal::InProgress
            };
            Step { phase: Phase::Done, action: Action::Finish(Err(refusal)), wake }
        },
        (Phase::Recording { claim, owner_id, run_id }, Event::OrphanWritten) => commit_step(
            claim,
            owner_id,
            run_id,
        ),
        (Phase::Committing { claim, owner_id, run_id }, Event::Committed(committed)) => {
            match committed {
                Ok(winner) => {
                    if text::same_text(winner.as_str(), run_id.as_str()) {
                        publish_commit(request, table, claim, owner_id, winner, now)
                    } else {
                        Step {
                            phase: Phase::SettlingSurplus { claim, owner_id, committed: winner },
                            action: Action::CancelRun { run_id },
                            wake: None,
                        }
                    }
                },
                Err(StoreReadyError::DigestConflict) => Step {
                    phase: Phase::ReleasingConflict { owner_id, run_id },
                    action: Action::Release { claim },
                    wake: None,
                },
                Err(StoreReadyError::Storage(detail)) => Step {
                    phase: Phase::InspectingReady { claim, owner_id, run_id, detail },
                    action: Action::LoadReady,
                    wake: None,
                },
            }
        },
        (
            Phase::SettlingSurplus { claim, owner_id, committed },
            Event::RunCancelled(cancelled),
        ) => match cancelled {
            Ok(()) => publish_commit(request, table, claim, owner_id, committed, now),
            Err(refused) => abandon_request(request, table, owner_id, Refusal::Service(refused)),
        },
        (Phase::ReleasingConflict { owner_id, run_id }, Event::Released(released)) => {
            if released {
                Step {
                    phase: Phase::SettlingConflict { owner_id },
                    action: Action::CancelRun { run_id },
                    wake: None,
                }
            } else {
                abandon_request(request, table, owner_id, Refusal::InProgress)
            }
        },
        (Phase::SettlingConflict { owner_id }, Event::RunCancelled(cancelled)) => {
            let refusal = match cancelled {
                Ok(()) => Refusal::Conflict,
                Err(refused) => Refusal::Service(refused),
            };
            abandon_request(request, table, owner_id, refusal)
        },
        (
            Phase::InspectingReady { claim, owner_id, run_id, detail },
            Event::ReadyLoaded(loaded),
        ) => {
            let surplus = match &loaded {
                Ok(Some(record)) => text::same_text(
                    record.digest.as_str(),
                    request.digest.as_str(),
                ) && !text::same_text(record.run_id.as_str(), run_id.as_str()),
                _ => false,
            };
            if surplus {
                Step {
                    phase: Phase::SettlingStale { claim, owner_id, detail },
                    action: Action::CancelRun { run_id },
                    wake: None,
                }
            } else {
                abandon_request(request, table, owner_id, Refusal::Unpersisted(detail))
            }
        },
        (Phase::InspectingReady { owner_id, detail, .. }, Event::LoadLost(_)) => abandon_request(
            request,
            table,
            owner_id,
            Refusal::Unpersisted(detail),
        ),
        (Phase::SettlingStale { claim, owner_id, detail }, Event::RunCancelled(cancelled)) => {
            match cancelled {
                Ok(()) => Step {
                    phase: Phase::ReleasingStale { owner_id, detail },
                    action: Action::Release { claim },
                    wake: None,
                },
                Err(refused) => abandon_request(
                    request,
                    table,
                    owner_id,
                    Refusal::Service(refused),
                ),
            }
        },
        (Phase::ReleasingStale { owner_id, detail }, Event::Released(_)) => abandon_request(
            request,
            table,
            owner_id,
            Refusal::Unpersisted(detail),
        ),
        (Phase::ReleasingCommitted { committed, wake }, Event::Released(released)) => {
            let outcome = if released {
                Ok(committed)
            } else {
                Err(Refusal::InProgress)
            };
            Step { phase: Phase::Done, action: Action::Finish(outcome), wake }
        },
        _ => finished(Err(Refusal::OutOfStep)),
    }
}

fn has_begun(phase: &Phase) -> (r: bool)
    ensures
        r == began(*phase),
{
    match phase {
        Phase::Executing { .. }
        | Phase::ReleasingFailed { .. }
        | Phase::Recording { .. }
        | Phase::Committing { .. }
        | Phase::SettlingSurplus { .. }
        | Phase::ReleasingConflict { .. }
        | Phase::SettlingConflict { .. }
        | Phase::InspectingReady { .. }
        | Phase::SettlingStale { .. }
        | Phase::ReleasingStale { .. }
        | Phase::ReleasingCommitted { .. } => true,
        _ => false,
    }
}

/// The first step of a keyed request.
pub fn begin() -> (step: Step)
    ensures
        step == consult_again(None),
{
    Step { phase: Phase::Lookup { carried: None }, action: Action::Consult, wake: None }
}

/// The first step of a mutation: without a key it is executed at once, under
/// the run id that is reserved for it, and with one the table is consulted.
pub open spec fn first_step(mutation: Mutation) -> Step {
    match mutation {
        Mutation::Unkeyed { reserved_run_id } => Step {
            phase: Phase::ExecutingUnkeyed,
            action: Action::Execute { run_id: reserved_run_id },
            wake: None,
        },
        Mutation::Keyed(_) => consult_again(None),
    }
}

/// What follows the execution of a request without a key: its run answers, or
/// the refusal of the run service.
pub open spec fn unkeyed_step(phase: Phase, event: Event) -> Step {
    match (phase, event) {
        (Phase::ExecutingUnkeyed, Event::Executed(Ok(run_id))) => finish(Ok(run_id)),
        (Phase::ExecutingUnkeyed, Event::Executed(Err(refused))) => finish(
            Err(Refusal::Service(refused)),
        ),
        _ => finish(Err(Refusal::OutOfStep)),
    }
}

/// Begins a mutation. The table is not handed over, so it stays as it is.
pub fn begin_mutation(mutation: &Mutation) -> (step: Step)
    ensures
        step == first_step(*mutation),
{
    match mutation {
        Mutation::Unkeyed { reserved_run_id } => Step {
            phase: Phase::ExecutingUnkeyed,
            action: Action::Execute { run_id: text::copy_option(reserved_run_id) },
            wake: None,
        },
        Mutation::Keyed(_) => begin(),
    }
}

/// Takes the next step of a request without a key. The table is not handed
/// over, so it stays as it is.
pub fn advance_unkeyed(phase: Phase, event: Event) -> (step: Step)
    ensures
        step == unkeyed_step(phase, event),
{
    match (phase, event) {
        (Phase::ExecutingUnkeyed, Event::Executed(Ok(run_id))) => finished(Ok(run_id)),
        (Phase::ExecutingUnkeyed, Event::Executed(Err(refused))) => finished(
            Err(Refusal::Service(refused)),
        ),
        _ => finished(Err(Refusal::OutOfStep)),
    }
}

/// Takes the next step of a keyed request. `fresh_owner` identifies this
/// request in memory, should it become the owner of its key.
pub fn advance(
    phase: Phase,
    event: Event,
    request: &KeyedRequest,
    table: &mut IdempotencyTable,
    limits: Limits,
    now: u64,
    fresh_owner: u128,
) -> (step: Step)
    requires
        old(table).wf(),
    ensures
        final(table).wf(),
        (step, final(table)@) == transition(
            phase,
            event,
            *request,
            old(table)@,
            limits,
            now,
            fresh_owner,
        ),
{
    if has_begun(&phase) {
        advance_execution(phase, event, request, table, now)
    } else {
        advance_admission(phase, event, request, table, limits, now, fresh_owner)
    }
}

} // verus!
