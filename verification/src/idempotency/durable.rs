//! The durable claim protocol. Every decision is taken on one observation of
//! the key's files, made while the store lock is held, and says what is to be
//! written; performing the reads and the writes is the caller's part.
use vstd::prelude::*;
use vstd::string::*;
use crate::error::ApiHttpError;
use crate::error;
use crate::text;
use super::record::{DurableIdempotencyRecord, DurablePendingRecord, FileModel, KeyFiles,
    PendingFile, PendingModel, ReadyFile, ReadyModel};

verus! {

/// Lifetime of an unfinished claim, in seconds.
pub const PENDING_TTL_SECS: u64 = 60;

/// Records are a few hundred bytes; anything larger is foreign damage.
pub const MAX_IDEMPOTENCY_FILE_BYTES: u64 = 65536;

/// The refusal of every decision that needs a clock that cannot be read.
pub open spec fn clock_error() -> Seq<char> {
    "system clock is before the Unix epoch; refusing idempotency decision"@
}

fn clock_error_text() -> (r: String)
    ensures
        r@ == clock_error(),
{
    "system clock is before the Unix epoch; refusing idempotency decision".to_owned()
}

/// A record made at `created` has reached age `ttl` at `now`; a record from
/// the future has age zero.
pub open spec fn expired(now: u64, created: u64, ttl: u64) -> bool {
    ttl == 0 || now - created >= ttl
}

fn has_expired(now: u64, created: u64, ttl: u64) -> (r: bool)
    ensures
        r == expired(now, created, ttl),
{
    now.saturating_sub(created) >= ttl
}

/// The lifetime of a committed mapping: at least one second.
pub open spec fn ready_ttl(ttl_secs: u64) -> u64 {
    if ttl_secs == 0 {
        1
    } else {
        ttl_secs
    }
}

fn effective_ready_ttl(ttl_secs: u64) -> (r: u64)
    ensures
        r == ready_ttl(ttl_secs),
{
    if ttl_secs == 0 {
        1
    } else {
        ttl_secs
    }
}

/// The generation of the next claim: one past the highest generation among the
/// key's claim and its committed mapping, where absence counts as zero.
pub open spec fn next_generation(pending_generation: u64, ready_generation: u64) -> u64 {
    let highest = if pending_generation >= ready_generation {
        pending_generation
    } else {
        ready_generation
    };
    if highest == u64::MAX {
        highest
    } else {
        (highest + 1) as u64
    }
}

pub fn pending_generation_from_parsed(pending_generation: u64, ready_generation: u64) -> (r: u64)
    ensures
        r == next_generation(pending_generation, ready_generation),
{
    let highest: u64 = if pending_generation >= ready_generation {
        pending_generation
    } else {
        ready_generation
    };
    highest.saturating_add(1)
}

/// A classified claim.
#[derive(Debug)]
pub enum PendingRead {
    Valid(DurablePendingRecord),
    /// An expired claim, whose run id a retry of the same request may adopt.
    Expired(DurablePendingRecord),
    Absent,
    /// Unreadable, corrupt or foreign: neither claimed over nor waited on.
    Unusable(String),
}

/// A classified claim, as values.
pub enum PendingReadModel {
    Valid(PendingModel),
    Expired(PendingModel),
    Absent,
    Unusable(Seq<char>),
}

impl View for PendingRead {
    type V = PendingReadModel;

    open spec fn view(&self) -> PendingReadModel {
        match self {
            PendingRead::Valid(record) => PendingReadModel::Valid(record@),
            PendingRead::Expired(record) => PendingReadModel::Expired(record@),
            PendingRead::Absent => PendingReadModel::Absent,
            PendingRead::Unusable(detail) => PendingReadModel::Unusable(detail@),
        }
    }
}

/// How the content of a claim file is classified: unreadable, corrupt and
/// foreign-key content is unusable, and so is any claim while the clock cannot
/// be read; otherwise the claim's age decides.
pub open spec fn pending_read(
    key: Seq<char>,
    file: FileModel<PendingModel>,
    now: Option<u64>,
) -> PendingReadModel {
    match file {
        FileModel::Absent => PendingReadModel::Absent,
        FileModel::Unreadable(error) => PendingReadModel::Unusable(
            "pending claim for key `"@ + key + "` is unreadable: "@ + error,
        ),
        FileModel::Empty => PendingReadModel::Absent,
        FileModel::Corrupt(error) => PendingReadModel::Unusable(
            "corrupt pending claim for key `"@ + key + "` ("@ + error
                + "); operator action required"@,
        ),
        FileModel::Present(record) => if record.key != key {
            PendingReadModel::Unusable(
                "pending claim at key `"@ + key
                    + "` belongs to a different key; operator action required"@,
            )
        } else {
            match now {
                None => PendingReadModel::Unusable(clock_error()),
                Some(t) => if expired(t, record.created, PENDING_TTL_SECS) {
                    PendingReadModel::Expired(record)
                } else {
                    PendingReadModel::Valid(record)
                },
            }
        },
    }
}

/// Classifies the content of a claim file.
pub fn read_durable_pending(key: &str, file: PendingFile, now: Option<u64>) -> (r: PendingRead)
    ensures
        r@ == pending_read(key@, file@, now),
{
    match file {
        PendingFile::Absent => PendingRead::Absent,
        PendingFile::Unreadable(error) => {
            let mut detail = "pending claim for key `".to_owned();
            detail.append(key);
            detail.append("` is unreadable: ");
            detail.append(error.as_str());
            PendingRead::Unusable(detail)
        },
        PendingFile::Corrupt(error) => {
            let mut detail = "corrupt pending claim for key `".to_owned();
            detail.append(key);
            detail.append("` (");
            detail.append(error.as_str());
            detail.append("); operator action required");
            PendingRead::Unusable(detail)
        },
        PendingFile::Present(record) => {
            if !text::same_text(record.key.as_str(), key) {
                let mut detail = "pending claim at key `".to_owned();
                detail.append(key);
                detail.append("` belongs to a different key; operator action required");
                return PendingRead::Unusable(detail);
            }
            match now {
                None => PendingRead::Unusable(clock_error_text()),
                Some(t) => if has_expired(t, record.created_at_unix, PENDING_TTL_SECS) {
                    PendingRead::Expired(record)
                } else {
                    PendingRead::Valid(record)
                },
            }
        },
    }
}

/// A committed mapping after expiry has been applied.
#[derive(Debug)]
pub struct ReapedReady {
    /// The mapping, while it is live.
    pub live: Option<DurableIdempotencyRecord>,
    /// The mapping's generation, also when it has expired; zero without one.
    pub generation: u64,
    /// The file holds an expired mapping and is to be removed.
    pub remove: bool,
}

/// The same, as values.
pub struct ReapedModel {
    pub live: Option<ReadyModel>,
    pub generation: u64,
    pub remove: bool,
}

pub open spec fn live_view(live: Option<DurableIdempotencyRecord>) -> Option<ReadyModel> {
    match live {
        Some(record) => Some(record@),
        None => None,
    }
}

impl View for ReapedReady {
    type V = ReapedModel;

    open spec fn view(&self) -> ReapedModel {
        ReapedModel {
            live: live_view(self.live),
            generation: self.generation,
            remove: self.remove,
        }
    }
}

/// Expiry of a committed mapping. A file that cannot be trusted is an error,
/// never an absence.
pub open spec fn reaped_ready(
    key: Seq<char>,
    file: FileModel<ReadyModel>,
    now: Option<u64>,
    ttl_secs: u64,
) -> Result<ReapedModel, Seq<char>> {
    match file {
        FileModel::Absent => Ok(ReapedModel { live: None, generation: 0, remove: false }),
        FileModel::Unreadable(error) => Err(error),
        FileModel::Empty => Err("idempotency record is empty; writer may be in progress"@),
        FileModel::Corrupt(error) => Err(error),
        FileModel::Present(record) => if record.key != key {
            Err("idempotency record key mismatch"@)
        } else {
            match now {
                None => Err(clock_error()),
                Some(t) => if expired(t, record.created, ready_ttl(ttl_secs)) {
                    Ok(ReapedModel { live: None, generation: record.generation, remove: true })
                } else {
                    Ok(
                        ReapedModel {
                            live: Some(record),
                            generation: record.generation,
                            remove: false,
                        },
                    )
                },
            }
        },
    }
}

/// Applies expiry to a committed mapping that was read under the store lock.
/// An expired mapping still floors the next generation.
pub fn reap_expired_ready_snapshot(
    key: &str,
    file: ReadyFile,
    now: Option<u64>,
    ttl_secs: u64,
) -> (r: Result<ReapedReady, String>)
    ensures
        match r {
            Ok(reaped) => reaped_ready(key@, file@, now, ttl_secs) == Ok::<_, Seq<char>>(reaped@),
            Err(error) => reaped_ready(key@, file@, now, ttl_secs) == Err::<ReapedModel, _>(
                error@,
            ),
        },
{
    match file {
        ReadyFile::Absent => Ok(ReapedReady { live: None, generation: 0, remove: false }),
        ReadyFile::Unreadable(error) => Err(error),
        ReadyFile::Empty => Err(
            "idempotency record is empty; writer may be in progress".to_owned(),
        ),
        ReadyFile::Corrupt(error) => Err(error),
        ReadyFile::Present(record) => {
            if !text::same_text(record.key.as_str(), key) {
                return Err("idempotency record key mismatch".to_owned());
            }
            match now {
                None => Err(clock_error_text()),
                Some(t) => {
                    let generation: u64 = record.generation;
                    if has_expired(t, record.created_at_unix, effective_ready_ttl(ttl_secs)) {
                        Ok(ReapedReady { live: None, generation, remove: true })
                    } else {
                        Ok(ReapedReady { live: Some(record), generation, remove: false })
                    }
                },
            }
        },
    }
}

/// Loads a committed mapping: absent and expired are `None`, everything that
/// cannot be trusted is an error.
pub fn load_durable_ready_result(
    key: &str,
    file: ReadyFile,
    now: Option<u64>,
    ttl_secs: u64,
) -> (r: Result<Option<DurableIdempotencyRecord>, String>)
    ensures
        match r {
            Ok(live) => reaped_ready(key@, file@, now, ttl_secs) matches Ok(reaped)
                && reaped.live == live_view(live),
            Err(error) => reaped_ready(key@, file@, now, ttl_secs) == Err::<ReapedModel, _>(
                error@,
            ),
        },
{
    match reap_expired_ready_snapshot(key, file, now, ttl_secs) {
        Ok(reaped) => Ok(reaped.live),
        Err(error) => Err(error),
    }
}

/// What a claim on a key came to.
#[derive(Debug)]
#[allow(inconsistent_fields)]
pub enum ClaimOutcome {
    /// The key is ours: execute under `run_id` and commit with this identity.
    Owner { run_id: Option<String>, owner: String, generation: u64 },
    /// Another owner holds the key for the same request.
    Peer,
    /// The key is committed: converge onto its run.
    Ready { run_id: String },
    /// The key is taken for a different request.
    Conflict,
}

/// What is to be done once a claim has been decided.
#[derive(Debug)]
pub enum ClaimStep {
    Peer,
    Ready { run_id: String },
    Conflict,
    /// The claim file is replaced by this record, and the claim is ours.
    Publish(DurablePendingRecord),
}

/// A decided claim.
#[derive(Debug)]
pub struct ClaimPlan {
    /// The committed mapping has expired and its file is removed first.
    pub remove_ready: bool,
    pub step: Result<ClaimStep, ApiHttpError>,
}

/// A claim decision, as values.
pub enum ClaimStepModel {
    Peer,
    Ready(Seq<char>),
    Conflict,
    Publish(PendingModel),
}

/// A decided claim, as values.
pub struct ClaimModel {
    pub remove_ready: bool,
    pub step: Result<ClaimStepModel, error::ProblemModel>,
}

impl View for ClaimStep {
    type V = ClaimStepModel;

    open spec fn view(&self) -> ClaimStepModel {
        match self {
            ClaimStep::Peer => ClaimStepModel::Peer,
            ClaimStep::Ready { run_id } => ClaimStepModel::Ready(run_id@),
            ClaimStep::Conflict => ClaimStepModel::Conflict,
            ClaimStep::Publish(record) => ClaimStepModel::Publish(record@),
        }
    }
}

impl View for ClaimPlan {
    type V = ClaimModel;

    open spec fn view(&self) -> ClaimModel {
        ClaimModel {
            remove_ready: self.remove_ready,
            step: match self.step {
                Ok(step) => Ok(step@),
                Err(refusal) => Err(refusal@),
            },
        }
    }
}

/// A request for a key, as values: what is asked under the key, and the
/// reservation and the claim id that a new claim would carry.
pub struct ClaimRequest {
    pub key: Seq<char>,
    pub digest: Seq<char>,
    pub reserved: Option<Seq<char>>,
    pub owner: Seq<char>,
}

/// The claim that a request publishes: it adopts the run id of an expired
/// claim for the same digest, and its generation passes every generation seen.
pub open spec fn new_claim(
    request: ClaimRequest,
    adopted: Option<Seq<char>>,
    generation: u64,
    now: u64,
) -> PendingModel {
    PendingModel {
        key: request.key,
        digest: request.digest,
        run_id: if adopted is Some {
            adopted
        } else {
            request.reserved
        },
        owner: request.owner,
        created: now,
        generation,
    }
}

/// How a claim is decided once the committed mapping has been reaped.
pub open spec fn claim_pending(
    request: ClaimRequest,
    ready_generation: u64,
    pending: FileModel<PendingModel>,
    now: Option<u64>,
) -> Result<ClaimStepModel, error::ProblemModel> {
    match pending_read(request.key, pending, now) {
        PendingReadModel::Valid(record) => if record.digest != request.digest {
            Ok(ClaimStepModel::Conflict)
        } else {
            Ok(ClaimStepModel::Peer)
        },
        PendingReadModel::Unusable(detail) => Err(
            error::internal_problem("failed to persist idempotency record: "@ + detail),
        ),
        PendingReadModel::Expired(record) => Ok(
            ClaimStepModel::Publish(
                new_claim(
                    request,
                    if record.digest == request.digest {
                        record.run_id
                    } else {
                        None
                    },
                    next_generation(record.generation, ready_generation),
                    now->0,
                ),
            ),
        ),
        PendingReadModel::Absent => match now {
            None => Err(error::internal_problem(clock_error())),
            Some(t) => Ok(
                ClaimStepModel::Publish(
                    new_claim(request, None, next_generation(0, ready_generation), t),
                ),
            ),
        },
    }
}

/// How a claim is decided on one observation of the key's files: a live
/// mapping answers, a live claim makes a peer or a conflict, and an absent or
/// expired claim is replaced.
pub open spec fn claim(
    request: ClaimRequest,
    files: KeyFiles,
    now: Option<u64>,
    ttl_secs: u64,
) -> ClaimModel {
    if files.ready is Unreadable {
        ClaimModel {
            remove_ready: false,
            step: Err(error::internal_problem(files.ready->Unreadable_0)),
        }
    } else if files.pending is Unreadable {
        ClaimModel {
            remove_ready: false,
            step: Err(error::internal_problem(files.pending->Unreadable_0)),
        }
    } else {
        match reaped_ready(request.key, files.ready, now, ttl_secs) {
            Err(detail) => ClaimModel {
                remove_ready: false,
                step: Err(
                    error::internal_problem("failed to load idempotency record: "@ + detail),
                ),
            },
            Ok(reaped) => match reaped.live {
                Some(committed) => ClaimModel {
                    remove_ready: false,
                    step: if committed.digest != request.digest {
                        Ok(ClaimStepModel::Conflict)
                    } else {
                        Ok(ClaimStepModel::Ready(committed.run_id))
                    },
                },
                None => ClaimModel {
                    remove_ready: reaped.remove,
                    step: claim_pending(request, reaped.generation, files.pending, now),
                },
            },
        }
    }
}

fn prefixed_internal(prefix: &str, detail: &str) -> (r: ApiHttpError)
    ensures
        r@ == error::internal_problem(prefix@ + detail@),
{
    let mut message = prefix.to_owned();
    message.append(detail);
    ApiHttpError::internal(message)
}

/// Decides a claim on a key before anything is executed under it, so that two
/// processes with the same key never both start a run.
pub fn claim_durable_pending(
    key: &str,
    digest: &str,
    reserved_run_id: Option<String>,
    owner: String,
    ready: ReadyFile,
    pending: PendingFile,
    now: Option<u64>,
    ttl_secs: u64,
) -> (plan: ClaimPlan)
    ensures
        plan@ == claim(
            ClaimRequest {
                key: key@,
                digest: digest@,
                reserved: reserved_run_id.deep_view(),
                owner: owner@,
            },
            KeyFiles { ready: ready@, pending: pending@ },
            now,
            ttl_secs,
        ),
{
    let ready = match ready {
        ReadyFile::Unreadable(error) => {
            return ClaimPlan { remove_ready: false, step: Err(ApiHttpError::internal(error)) };
        },
        other => other,
    };
    let pending = match pending {
        PendingFile::Unreadable(error) => {
            return ClaimPlan { remove_ready: false, step: Err(ApiHttpError::internal(error)) };
        },
        other => other,
    };
    let reaped = match reap_expired_ready_snapshot(key, ready, now, ttl_secs) {
        Ok(reaped) => reaped,
        Err(detail) => {
            return ClaimPlan {
                remove_ready: false,
                step: Err(
                    prefixed_internal("failed to load idempotency record: ", detail.as_str()),
                ),
            };
        },
    };
    if let Some(committed) = reaped.live {
        if !text::same_text(committed.digest.as_str(), digest) {
            return ClaimPlan { remove_ready: false, step: Ok(ClaimStep::Conflict) };
        }
        return ClaimPlan {
            remove_ready: false,
            step: Ok(ClaimStep::Ready { run_id: committed.run_id }),
        };
    }
    let remove_ready = reaped.remove;
    let mut adopted: Option<String> = None;
    let pending_generation: u64 = match read_durable_pending(key, pending, now) {
        PendingRead::Valid(record) => {
            if !text::same_text(record.digest.as_str(), digest) {
                return ClaimPlan { remove_ready, step: Ok(ClaimStep::Conflict) };
            }
            return ClaimPlan { remove_ready, step: Ok(ClaimStep::Peer) };
        },
        PendingRead::Expired(record) => {
            let generation: u64 = record.generation;
            if text::same_text(record.digest.as_str(), digest) {
                adopted = record.run_id;
            }
            generation
        },
        PendingRead::Absent => 0,
        PendingRead::Unusable(detail) => {
            return ClaimPlan {
                remove_ready,
                step: Err(
                    prefixed_internal("failed to persist idempotency record: ", detail.as_str()),
                ),
            };
        },
    };
    let run_id = match adopted {
        Some(run_id) => Some(run_id),
        None => reserved_run_id,
    };
    let generation: u64 = pending_generation_from_parsed(pending_generation, reaped.generation);
    match now {
        None => ClaimPlan {
            remove_ready,
            step: Err(ApiHttpError::internal(clock_error_text())),
        },
        Some(created_at_unix) => ClaimPlan {
            remove_ready,
            step: Ok(
                ClaimStep::Publish(
                    DurablePendingRecord {
                        key: key.to_owned(),
                        digest: digest.to_owned(),
                        run_id,
                        owner,
                        created_at_unix,
                        generation,
                    },
                ),
            ),
        },
    }
}

impl ClaimOutcome {
    /// The outcome for the claimant whose record was published.
    pub fn of_published(record: &DurablePendingRecord) -> (r: ClaimOutcome)
        ensures
            r == (ClaimOutcome::Owner {
                run_id: record.run_id,
                owner: record.owner,
                generation: record.generation,
            }),
    {
        ClaimOutcome::Owner {
            run_id: text::copy_option(&record.run_id),
            owner: record.owner.clone(),
            generation: record.generation,
        }
    }
}

/// Why a commit was refused.
#[derive(Debug)]
pub enum StoreReadyError {
    /// The key is committed for a different request digest.
    DigestConflict,
    /// Damage, an unreadable store, or a claim that is no longer ours.
    Storage(String),
}

impl StoreReadyError {
    pub open spec fn message_model(self) -> Seq<char> {
        match self {
            StoreReadyError::DigestConflict => conflict_detail(),
            StoreReadyError::Storage(detail) => detail@,
        }
    }

    /// The refusal in words.
    pub fn message(&self) -> (r: String)
        ensures
            r@ == self.message_model(),
    {
        match self {
            StoreReadyError::DigestConflict =>
                "Idempotency-Key was already used with a different request".to_owned(),
            StoreReadyError::Storage(detail) => detail.clone(),
        }
    }
}

/// What a client is told that reuses a key for another request.
pub open spec fn conflict_detail() -> Seq<char> {
    "Idempotency-Key was already used with a different request"@
}

/// The answer to a key that was already used with a different request.
pub fn idempotency_conflict() -> (r: ApiHttpError)
    ensures
        r@ == error::conflict_problem(conflict_detail()),
{
    ApiHttpError::from_api(
        error::ApiError::Conflict {
            detail: "Idempotency-Key was already used with a different request".to_owned(),
        },
    )
}

/// What is to be done once a commit has been decided.
#[derive(Debug)]
pub enum StoreStep {
    /// The key is already committed to this run.
    Converged(String),
    /// The mapping file is replaced by this record.
    Publish(DurableIdempotencyRecord),
}

/// A decided commit.
#[derive(Debug)]
pub struct StorePlan {
    /// The committed mapping has expired and its file is removed first.
    pub remove_ready: bool,
    pub step: Result<StoreStep, StoreReadyError>,
}

pub enum StoreRefusal {
    DigestConflict,
    Storage(Seq<char>),
}

pub enum StoreStepModel {
    Converged(Seq<char>),
    Publish(ReadyModel),
}

/// A decided commit, as values.
pub struct StoreModel {
    pub remove_ready: bool,
    pub step: Result<StoreStepModel, StoreRefusal>,
}

impl View for StoreReadyError {
    type V = StoreRefusal;

    open spec fn view(&self) -> StoreRefusal {
        match self {
            StoreReadyError::DigestConflict => StoreRefusal::DigestConflict,
            StoreReadyError::Storage(detail) => StoreRefusal::Storage(detail@),
        }
    }
}

impl View for StoreStep {
    type V = StoreStepModel;

    open spec fn view(&self) -> StoreStepModel {
        match self {
            StoreStep::Converged(run_id) => StoreStepModel::Converged(run_id@),
            StoreStep::Publish(record) => StoreStepModel::Publish(record@),
        }
    }
}

impl View for StorePlan {
    type V = StoreModel;

    open spec fn view(&self) -> StoreModel {
        StoreModel {
            remove_ready: self.remove_ready,
            step: match self.step {
                Ok(step) => Ok(step@),
                Err(refusal) => Err(refusal@),
            },
        }
    }
}

/// A commit, as values: the mapping to publish and the claim identity that the
/// committer was admitted with.
pub struct Commit {
    pub key: Seq<char>,
    pub digest: Seq<char>,
    pub run_id: Seq<char>,
    pub owner: Seq<char>,
    pub generation: u64,
}

/// Why a live claim does not authorise a commit, if it does not: the owner, the
/// generation, the digest and the reserved run must all match.
pub open spec fn ownership_refusal(commit: Commit, claim: PendingModel) -> Option<Seq<char>> {
    if claim.owner != commit.owner {
        Some("idempotency claim is owned by a different claim; commit refused"@)
    } else if claim.generation != commit.generation {
        Some(
            "idempotency claim superseded by generation "@ + text::decimal(claim.generation as nat)
                + "; commit refused"@,
        )
    } else if claim.digest != commit.digest {
        Some("idempotency claim was admitted for different content; commit refused"@)
    } else if claim.run_id != Some(commit.run_id) {
        Some("idempotency claim has no matching reserved run; commit refused"@)
    } else {
        None
    }
}

/// How a commit is decided once the committed mapping has been reaped. A live
/// claim that matches publishes or converges; without any claim a commit only
/// converges onto a mapping that exists; everything else is refused.
pub open spec fn store_with_claim(
    commit: Commit,
    live: Option<ReadyModel>,
    claim: PendingReadModel,
    now: Option<u64>,
) -> Result<StoreStepModel, StoreRefusal> {
    if live is Some && live->0.digest != commit.digest {
        Err(StoreRefusal::DigestConflict)
    } else {
        match claim {
            PendingReadModel::Valid(record) => match ownership_refusal(commit, record) {
                Some(detail) => Err(StoreRefusal::Storage(detail)),
                None => match live {
                    Some(existing) => Ok(StoreStepModel::Converged(existing.run_id)),
                    None => Ok(
                        StoreStepModel::Publish(
                            ReadyModel {
                                key: commit.key,
                                digest: commit.digest,
                                run_id: commit.run_id,
                                created: now->0,
                                generation: commit.generation,
                            },
                        ),
                    ),
                },
            },
            PendingReadModel::Absent => match live {
                Some(existing) => Ok(StoreStepModel::Converged(existing.run_id)),
                None => Err(
                    StoreRefusal::Storage(
                        "idempotency claim is absent; refusing to publish a new Ready record"@,
                    ),
                ),
            },
            PendingReadModel::Expired(_) => Err(
                StoreRefusal::Storage("idempotency claim expired; commit refused"@),
            ),
            PendingReadModel::Unusable(detail) => Err(
                StoreRefusal::Storage("idempotency claim is unusable: "@ + detail),
            ),
        }
    }
}

/// How a commit is decided on one observation of the key's files.
pub open spec fn store(
    commit: Commit,
    files: KeyFiles,
    now: Option<u64>,
    ttl_secs: u64,
) -> StoreModel {
    if files.ready is Unreadable {
        StoreModel {
            remove_ready: false,
            step: Err(StoreRefusal::Storage(files.ready->Unreadable_0)),
        }
    } else if files.pending is Unreadable {
        StoreModel {
            remove_ready: false,
            step: Err(StoreRefusal::Storage(files.pending->Unreadable_0)),
        }
    } else {
        match reaped_ready(commit.key, files.ready, now, ttl_secs) {
            Err(detail) => StoreModel {
                remove_ready: false,
                step: Err(StoreRefusal::Storage(detail)),
            },
            Ok(reaped) => StoreModel {
                remove_ready: reaped.remove,
                step: store_with_claim(
                    commit,
                    reaped.live,
                    pending_read(commit.key, files.pending, now),
                    now,
                ),
            },
        }
    }
}

fn check_live_ownership(
    pending: &DurablePendingRecord,
    digest: &str,
    run_id: &str,
    owner: &str,
    generation: u64,
    Ghost(key): Ghost<Seq<char>>,
) -> (r: Result<(), String>)
    ensures
        match r {
            Ok(()) => ownership_refusal(
                Commit { key, digest: digest@, run_id: run_id@, owner: owner@, generation },
                pending@,
            ) is None,
            Err(detail) => ownership_refusal(
                Commit { key, digest: digest@, run_id: run_id@, owner: owner@, generation },
                pending@,
            ) == Some(detail@),
        },
{
    if !text::same_text(pending.owner.as_str(), owner) {
        return Err(
            "idempotency claim is owned by a different claim; commit refused".to_owned(),
        );
    }
    if pending.generation != generation {
        let mut detail = "idempotency claim superseded by generation ".to_owned();
        text::push_decimal(&mut detail, pending.generation);
        detail.append("; commit refused");
        return Err(detail);
    }
    if !text::same_text(pending.digest.as_str(), digest) {
        return Err(
            "idempotency claim was admitted for different content; commit refused".to_owned(),
        );
    }
    let reserved_matches = match &pending.run_id {
        Some(reserved) => text::same_text(reserved.as_str(), run_id),
        None => false,
    };
    if !reserved_matches {
        return Err("idempotency claim has no matching reserved run; commit refused".to_owned());
    }
    Ok(())
}

/// Decides the commit of a key to its run. The committer must prove that it
/// still owns the key: the current claim has to be live and to match in owner,
/// generation, digest and reserved run.
pub fn store_durable_ready(
    key: &str,
    digest: &str,
    run_id: &str,
    owner: &str,
    generation: u64,
    ready: ReadyFile,
    pending: PendingFile,
    now: Option<u64>,
    ttl_secs: u64,
) -> (plan: StorePlan)
    ensures
        plan@ == store(
            Commit { key: key@, digest: digest@, run_id: run_id@, owner: owner@, generation },
            KeyFiles { ready: ready@, pending: pending@ },
            now,
            ttl_secs,
        ),
{
    let ready = match ready {
        ReadyFile::Unreadable(error) => {
            return StorePlan {
                remove_ready: false,
                step: Err(StoreReadyError::Storage(error)),
            };
        },
        other => other,
    };
    let pending = match pending {
        PendingFile::Unreadable(error) => {
            return StorePlan {
                remove_ready: false,
                step: Err(StoreReadyError::Storage(error)),
            };
        },
        other => other,
    };
    let claim_read = read_durable_pending(key, pending, now);
    let reaped = match reap_expired_ready_snapshot(key, ready, now, ttl_secs) {
        Ok(reaped) => reaped,
        Err(detail) => {
            return StorePlan {
                remove_ready: false,
                step: Err(StoreReadyError::Storage(detail)),
            };
        },
    };
    let remove_ready = reaped.remove;
    if let Some(existing) = &reaped.live {
        if !text::same_text(existing.digest.as_str(), digest) {
            return StorePlan { remove_ready, step: Err(StoreReadyError::DigestConflict) };
        }
    }
    match claim_read {
        PendingRead::Valid(record) => {
            match check_live_ownership(&record, digest, run_id, owner, generation, Ghost(key@)) {
                Ok(()) => {},
                Err(detail) => {
                    return StorePlan {
                        remove_ready,
                        step: Err(StoreReadyError::Storage(detail)),
                    };
                },
            }
        },
        PendingRead::Absent => {
            if reaped.live.is_none() {
                return StorePlan {
                    remove_ready,
                    step: Err(
                        StoreReadyError::Storage(
                            "idempotency claim is absent; refusing to publish a new Ready record".to_owned(),
                        ),
                    ),
                };
            }
        },
        PendingRead::Expired(_) => {
            return StorePlan {
                remove_ready,
                step: Err(
                    StoreReadyError::Storage(
                        "idempotency claim expired; commit refused".to_owned(),
                    ),
                ),
            };
        },
        PendingRead::Unusable(detail) => {
            let mut message = "idempotency claim is unusable: ".to_owned();
            message.append(detail.as_str());
            return StorePlan { remove_ready, step: Err(StoreReadyError::Storage(message)) };
        },
    }
    match reaped.live {
        Some(existing) => StorePlan {
            remove_ready,
            step: Ok(StoreStep::Converged(existing.run_id)),
        },
        None => match now {
            None => StorePlan {
                remove_ready,
                step: Err(StoreReadyError::Storage(clock_error_text())),
            },
            Some(created_at_unix) => StorePlan {
                remove_ready,
                step: Ok(
                    StoreStep::Publish(
                        DurableIdempotencyRecord {
                            key: key.to_owned(),
                            digest: digest.to_owned(),
                            run_id: run_id.to_owned(),
                            created_at_unix,
                            generation,
                        },
                    ),
                ),
            },
        },
    }
}

} // verus!
