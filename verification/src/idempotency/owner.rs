//! What the owner of a claim does with it besides committing: releasing it,
//! and checking that it is still the owner; and what a peer does, which is
//! waiting for the owner's commit.
use vstd::prelude::*;
use vstd::string::*;
use crate::error;
use crate::error::ApiHttpError;
use crate::text;
use super::durable;
use super::durable::PendingRead;
use super::record::{DurableIdempotencyRecord, FileModel, PendingFile, PendingModel, ReadyModel};

verus! {

/// Whether a release removes the claim file: only an exact match of owner and
/// generation does, and nothing is removed that cannot be read or belongs to
/// another key.
pub open spec fn release(
    key: Seq<char>,
    owner: Seq<char>,
    generation: u64,
    file: FileModel<PendingModel>,
) -> Result<bool, Seq<char>> {
    match file {
        FileModel::Absent | FileModel::Empty => Ok(false),
        FileModel::Unreadable(error) => Err(
            "idempotency claim for key `"@ + key + "` is unreadable: "@ + error,
        ),
        FileModel::Corrupt(error) => Err(
            "idempotency claim for key `"@ + key + "` is corrupt ("@ + error
                + "); operator action required"@,
        ),
        FileModel::Present(record) => if record.key != key {
            Err(
                "idempotency claim at key `"@ + key
                    + "` belongs to a different key; refusing release; operator action required"@,
            )
        } else {
            Ok(record.owner == owner && record.generation == generation)
        },
    }
}

/// Decides the release of a claim; `true` removes the claim file.
pub fn release_durable_pending(
    key: &str,
    owner: &str,
    generation: u64,
    file: &PendingFile,
) -> (r: Result<bool, String>)
    ensures
        match r {
            Ok(remove) => release(key@, owner@, generation, file@) == Ok::<_, Seq<char>>(remove),
            Err(detail) => release(key@, owner@, generation, file@) == Err::<bool, _>(detail@),
        },
{
    match file {
        PendingFile::Absent => Ok(false),
        PendingFile::Unreadable(error) => {
            let mut detail = "idempotency claim for key `".to_owned();
            detail.append(key);
            detail.append("` is unreadable: ");
            detail.append(error.as_str());
            Err(detail)
        },
        PendingFile::Corrupt(error) => {
            let mut detail = "idempotency claim for key `".to_owned();
            detail.append(key);
            detail.append("` is corrupt (");
            detail.append(error.as_str());
            detail.append("); operator action required");
            Err(detail)
        },
        PendingFile::Present(record) => {
            if !text::same_text(record.key.as_str(), key) {
                let mut detail = "idempotency claim at key `".to_owned();
                detail.append(key);
                detail.append(
                    "` belongs to a different key; refusing release; operator action required",
                );
                return Err(detail);
            }
            Ok(text::same_text(record.owner.as_str(), owner) && record.generation == generation)
        },
    }
}

/// What a check before execution found of our claim.
#[derive(Debug, Clone, Copy, PartialEq, Eq, Structural)]
pub enum OwnerCheck {
    /// The claim is live and ours.
    Current,
    /// Another claim is there, or ours has expired.
    Superseded,
    /// No claim is there.
    Absent,
}

/// Whether the claim `owner`, `generation`, `digest` still holds the key.
pub open spec fn owner_check(
    key: Seq<char>,
    owner: Seq<char>,
    generation: u64,
    digest: Seq<char>,
    file: FileModel<PendingModel>,
    now: Option<u64>,
) -> Result<OwnerCheck, Seq<char>> {
    match file {
        FileModel::Unreadable(error) => Err(
            "idempotency claim for key `"@ + key + "` is unreadable: "@ + error,
        ),
        _ => match durable::pending_read(key, file, now) {
            durable::PendingReadModel::Valid(record) => Ok(
                if record.owner == owner && record.generation == generation && record.digest
                    == digest {
                    OwnerCheck::Current
                } else {
                    OwnerCheck::Superseded
                },
            ),
            durable::PendingReadModel::Expired(_) => Ok(OwnerCheck::Superseded),
            durable::PendingReadModel::Absent => Ok(OwnerCheck::Absent),
            durable::PendingReadModel::Unusable(detail) => Err(detail),
        },
    }
}

/// Checks our claim just before execution: an owner whose claim expired or was
/// adopted in the meantime must not execute.
pub fn check_pending_owner(
    key: &str,
    owner: &str,
    generation: u64,
    expected_digest: &str,
    file: PendingFile,
    now: Option<u64>,
) -> (r: Result<OwnerCheck, String>)
    ensures
        match r {
            Ok(check) => owner_check(key@, owner@, generation, expected_digest@, file@, now)
                == Ok::<_, Seq<char>>(check),
            Err(detail) => owner_check(key@, owner@, generation, expected_digest@, file@, now)
                == Err::<OwnerCheck, _>(detail@),
        },
{
    let file = match file {
        PendingFile::Unreadable(error) => {
            let mut detail = "idempotency claim for key `".to_owned();
            detail.append(key);
            detail.append("` is unreadable: ");
            detail.append(error.as_str());
            return Err(detail);
        },
        other => other,
    };
    match durable::read_durable_pending(key, file, now) {
        PendingRead::Valid(current) => {
            if text::same_text(current.owner.as_str(), owner) && current.generation == generation
                && text::same_text(current.digest.as_str(), expected_digest) {
                Ok(OwnerCheck::Current)
            } else {
                Ok(OwnerCheck::Superseded)
            }
        },
        PendingRead::Expired(_) => Ok(OwnerCheck::Superseded),
        PendingRead::Absent => Ok(OwnerCheck::Absent),
        PendingRead::Unusable(detail) => Err(detail),
    }
}

/// How long a peer is waited for, in seconds.
pub const PEER_WAIT_SECS: u64 = 30;

/// The pause between two looks at a peer, in milliseconds.
pub const PEER_PAUSE_MILLIS: u64 = 100;

/// What waiting for a peer came to.
#[derive(Debug)]
pub enum WaitOutcome {
    /// The peer committed this run.
    Ready(String),
    /// The peer is gone: claim again, with the run id that it left behind.
    RetryClaim { adopted_run_id: Option<String> },
}

pub enum WaitModel {
    Ready(Seq<char>),
    RetryClaim(Option<Seq<char>>),
}

impl View for WaitOutcome {
    type V = WaitModel;

    open spec fn view(&self) -> WaitModel {
        match self {
            WaitOutcome::Ready(run_id) => WaitModel::Ready(run_id@),
            WaitOutcome::RetryClaim { adopted_run_id } => WaitModel::RetryClaim(
                adopted_run_id.deep_view(),
            ),
        }
    }
}

/// What follows when the commit is not there on the second look either.
#[derive(Debug)]
pub enum AfterRecheck {
    Retry { adopted_run_id: Option<String> },
    TimedOut,
}

pub enum AfterRecheckModel {
    Retry(Option<Seq<char>>),
    TimedOut,
}

impl View for AfterRecheck {
    type V = AfterRecheckModel;

    open spec fn view(&self) -> AfterRecheckModel {
        match self {
            AfterRecheck::Retry { adopted_run_id } => AfterRecheckModel::Retry(
                adopted_run_id.deep_view(),
            ),
            AfterRecheck::TimedOut => AfterRecheckModel::TimedOut,
        }
    }
}

/// What a waiter does after one look at the key.
#[derive(Debug)]
pub enum WaitStep {
    Finish(Result<WaitOutcome, ApiHttpError>),
    /// Look for the commit once more before acting on the claim's absence,
    /// expiry, or the deadline.
    Recheck(AfterRecheck),
    /// The claim is live: look again after a pause.
    Sleep,
}

pub enum WaitStepModel {
    Finish(Result<WaitModel, error::ProblemModel>),
    Recheck(AfterRecheckModel),
    Sleep,
}

/// A waiting result, as values.
pub open spec fn wait_result(
    r: Result<WaitOutcome, ApiHttpError>,
) -> Result<WaitModel, error::ProblemModel> {
    match r {
        Ok(outcome) => Ok(outcome@),
        Err(refusal) => Err(refusal@),
    }
}

impl View for WaitStep {
    type V = WaitStepModel;

    open spec fn view(&self) -> WaitStepModel {
        match self {
            WaitStep::Finish(r) => WaitStepModel::Finish(wait_result(*r)),
            WaitStep::Recheck(after) => WaitStepModel::Recheck(after@),
            WaitStep::Sleep => WaitStepModel::Sleep,
        }
    }
}

/// A look at the committed mapping, as values.
pub open spec fn load_model(
    r: Result<Option<DurableIdempotencyRecord>, String>,
) -> Result<Option<ReadyModel>, Seq<char>> {
    match r {
        Ok(live) => Ok(durable::live_view(live)),
        Err(detail) => Err(detail@),
    }
}

/// What a committed mapping means to a waiter, if one is there: its run for
/// the same request, a conflict for another one, and a failure where it cannot
/// be trusted.
pub open spec fn commit_seen(
    digest: Seq<char>,
    ready: Result<Option<ReadyModel>, Seq<char>>,
) -> Option<Result<WaitModel, error::ProblemModel>> {
    match ready {
        Err(detail) => Some(
            Err(error::internal_problem("failed to load idempotency record: "@ + detail)),
        ),
        Ok(Some(record)) => Some(
            if record.digest != digest {
                Err(error::conflict_problem(durable::conflict_detail()))
            } else {
                Ok(WaitModel::Ready(record.run_id))
            },
        ),
        Ok(None) => None,
    }
}

/// What a waiter does after one look at the key.
pub open spec fn wait_step(
    digest: Seq<char>,
    ready: Result<Option<ReadyModel>, Seq<char>>,
    claim: durable::PendingReadModel,
    deadline_passed: bool,
) -> WaitStepModel {
    match commit_seen(digest, ready) {
        Some(r) => WaitStepModel::Finish(r),
        None => match claim {
            durable::PendingReadModel::Valid(record) => if record.digest != digest {
                WaitStepModel::Finish(Err(error::conflict_problem(durable::conflict_detail())))
            } else if deadline_passed {
                WaitStepModel::Recheck(AfterRecheckModel::TimedOut)
            } else {
                WaitStepModel::Sleep
            },
            durable::PendingReadModel::Expired(record) => if record.digest != digest {
                WaitStepModel::Finish(Err(error::conflict_problem(durable::conflict_detail())))
            } else {
                WaitStepModel::Recheck(AfterRecheckModel::Retry(record.run_id))
            },
            durable::PendingReadModel::Absent => WaitStepModel::Recheck(
                AfterRecheckModel::Retry(None),
            ),
            durable::PendingReadModel::Unusable(detail) => WaitStepModel::Finish(
                Err(error::internal_problem("failed to load idempotency record: "@ + detail)),
            ),
        },
    }
}

/// What a waiter is told whose peer is still at work at the deadline.
pub open spec fn in_progress_detail() -> Seq<char> {
    "idempotent request is still in progress elsewhere; retry with the same key"@
}

/// The answer to a request whose key is still in use.
pub fn in_progress_elsewhere() -> (r: ApiHttpError)
    ensures
        r@ == error::unavailable_problem(in_progress_detail()),
{
    ApiHttpError::service_unavailable(
        "idempotent request is still in progress elsewhere; retry with the same key".to_owned(),
    )
}

/// A mapping that could not be loaded.
pub fn load_failure(detail: &str) -> (r: ApiHttpError)
    ensures
        r@ == error::internal_problem("failed to load idempotency record: "@ + detail@),
{
    let mut message = "failed to load idempotency record: ".to_owned();
    message.append(detail);
    ApiHttpError::internal(message)
}

fn judge_commit(
    digest: &str,
    ready: Result<Option<DurableIdempotencyRecord>, String>,
) -> (r: Option<Result<WaitOutcome, ApiHttpError>>)
    ensures
        match r {
            Some(result) => commit_seen(digest@, load_model(ready)) == Some(wait_result(result)),
            None => commit_seen(digest@, load_model(ready)) is None,
        },
{
    match ready {
        Err(detail) => Some(Err(load_failure(detail.as_str()))),
        Ok(Some(record)) => {
            if !text::same_text(record.digest.as_str(), digest) {
                Some(Err(durable::idempotency_conflict()))
            } else {
                Some(Ok(WaitOutcome::Ready(record.run_id)))
            }
        },
        Ok(None) => None,
    }
}

/// One look at the key by a waiter: the committed mapping first, then the
/// claim.
pub fn observe_peer(
    digest: &str,
    ready: Result<Option<DurableIdempotencyRecord>, String>,
    claim: PendingRead,
    deadline_passed: bool,
) -> (r: WaitStep)
    ensures
        r@ == wait_step(digest@, load_model(ready), claim@, deadline_passed),
{
    match judge_commit(digest, ready) {
        Some(result) => WaitStep::Finish(result),
        None => match claim {
            PendingRead::Valid(record) => {
                if !text::same_text(record.digest.as_str(), digest) {
                    WaitStep::Finish(Err(durable::idempotency_conflict()))
                } else if deadline_passed {
                    WaitStep::Recheck(AfterRecheck::TimedOut)
                } else {
                    WaitStep::Sleep
                }
            },
            PendingRead::Expired(record) => {
                if !text::same_text(record.digest.as_str(), digest) {
                    WaitStep::Finish(Err(durable::idempotency_conflict()))
                } else {
                    WaitStep::Recheck(AfterRecheck::Retry { adopted_run_id: record.run_id })
                }
            },
            PendingRead::Absent => WaitStep::Recheck(
                AfterRecheck::Retry { adopted_run_id: None },
            ),
            PendingRead::Unusable(detail) => WaitStep::Finish(
                Err(load_failure(detail.as_str())),
            ),
        },
    }
}

/// How waiting ends once the commit has been looked for a second time.
pub open spec fn recheck_result(
    digest: Seq<char>,
    after: AfterRecheckModel,
    ready: Result<Option<ReadyModel>, Seq<char>>,
) -> Result<WaitModel, error::ProblemModel> {
    match commit_seen(digest, ready) {
        Some(r) => r,
        None => match after {
            AfterRecheckModel::Retry(run_id) => Ok(WaitModel::RetryClaim(run_id)),
            AfterRecheckModel::TimedOut => Err(error::unavailable_problem(in_progress_detail())),
        },
    }
}

/// Ends the wait after the second look at the committed mapping.
pub fn resolve_recheck(
    digest: &str,
    after: AfterRecheck,
    ready: Result<Option<DurableIdempotencyRecord>, String>,
) -> (r: Result<WaitOutcome, ApiHttpError>)
    ensures
        wait_result(r) == recheck_result(digest@, after@, load_model(ready)),
{
    match judge_commit(digest, ready) {
        Some(result) => result,
        None => match after {
            AfterRecheck::Retry { adopted_run_id } => Ok(
                WaitOutcome::RetryClaim { adopted_run_id },
            ),
            AfterRecheck::TimedOut => Err(in_progress_elsewhere()),
        },
    }
}

} // verus!
