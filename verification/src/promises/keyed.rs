//! What a keyed request goes through, from its first look at the table to its
//! answer.
use vstd::prelude::*;
use crate::error::{ApiError, ApiHttpError};
use crate::idempotency::durable::{ClaimOutcome, StoreReadyError};
use crate::idempotency::flow;
use crate::idempotency::flow::{Action, ClaimId, Entries, Event, KeyedRequest, Limits, Mutation};
use crate::idempotency::flow::{Phase, Refusal, Step};
use crate::idempotency::memory::IdempotencyEntry;
use crate::idempotency::owner::{OwnerCheck, WaitOutcome};
use crate::idempotency::record::DurableIdempotencyRecord;

verus! {

/// The table has the request of this owner for the key.
pub open spec fn is_ours(entries: Entries, key: Seq<char>, owner: u128) -> bool {
    entries.contains_key(key) && (entries[key] matches IdempotencyEntry::Pending { owner_id, .. }
        && owner_id == owner)
}

/// A request for a key that nobody has used is served from end to end: it looks
/// for a mapping and for a run that was left behind, claims the key for the
/// run that is reserved for it, is registered, checks its claim, executes as
/// the claim's run, records and commits what it made under that very claim,
/// releases the claim, and is answered with its run, which the table then
/// knows.
pub proof fn a_new_key_is_served(
    request: KeyedRequest,
    limits: Limits,
    entries: Entries,
    run: Option<String>,
    owner: String,
    generation: u64,
    made: String,
    committed: String,
    now: u64,
    owner_id: u128,
)
    requires
        request.creates_run,
        !entries.contains_key(request.key@),
        entries.len() < limits.max_entries,
        committed@ == made@,
    ensures
        ({
            let claim = ClaimId { owner, generation };
            let s0 = flow::first_step(Mutation::Keyed(request));
            let s1 = flow::lookup(request, entries, None);
            let (s2, e2) = flow::transition(
                s1.phase,
                Event::ReadyLoaded(Ok(None)),
                request,
                entries,
                limits,
                now,
                owner_id,
            );
            let (s3, e3) = flow::transition(
                s2.phase,
                Event::OrphansScanned(Ok(None)),
                request,
                e2,
                limits,
                now,
                owner_id,
            );
            let (s4, e4) = flow::transition(
                s3.phase,
                Event::Claimed(Ok(ClaimOutcome::Owner { run_id: run, owner, generation })),
                request,
                e3,
                limits,
                now,
                owner_id,
            );
            let (s5, e5) = flow::transition(
                s4.phase,
                Event::OwnerChecked(Ok(OwnerCheck::Current)),
                request,
                e4,
                limits,
                now,
                owner_id,
            );
            let (s6, e6) = flow::transition(
                s5.phase,
                Event::Executed(Ok(made)),
                request,
                e5,
                limits,
                now,
                owner_id,
            );
            let (s7, e7) = flow::transition(
                s6.phase,
                Event::OrphanWritten,
                request,
                e6,
                limits,
                now,
                owner_id,
            );
            let (s8, e8) = flow::transition(
                s7.phase,
                Event::Committed(Ok(committed)),
                request,
                e7,
                limits,
                now,
                owner_id,
            );
            let (s9, e9) = flow::transition(
                s8.phase,
                Event::Released(true),
                request,
                e8,
                limits,
                now,
                owner_id,
            );
            &&& s0.action is Consult
            &&& s1.action is LoadReady
            &&& s2.action is ScanOrphans
            &&& s3.action == Action::Claim { reserved_run_id: request.reserved_run_id }
            &&& s4.action == Action::CheckOwner { claim }
            &&& e4 == entries.insert(
                request.key@,
                IdempotencyEntry::Pending { digest: request.digest, owner_id, created_at: now },
            )
            &&& s5.action == Action::Execute { run_id: run }
            &&& s6.action == Action::WriteOrphan { run_id: made }
            &&& s7.action == Action::Commit { run_id: made, claim }
            &&& e7 == e4
            &&& s8.action == Action::Release { claim }
            &&& s9.action == Action::Finish(Ok(committed))
            &&& s9.phase is Done
            &&& s9.wake == Some(owner_id)
            &&& e9 == entries.insert(
                request.key@,
                IdempotencyEntry::Ready {
                    digest: request.digest,
                    created_at: now,
                    run_id: committed,
                },
            )
        }),
{
    let before = entries.insert(
        request.key@,
        IdempotencyEntry::Pending { digest: request.digest, owner_id, created_at: now },
    );
    let ready = IdempotencyEntry::Ready {
        digest: request.digest,
        created_at: now,
        run_id: committed,
    };
    assert(before.remove(request.key@).insert(request.key@, ready) =~= entries.insert(
        request.key@,
        ready,
    ));
}

/// A request that creates no run neither looks for a run that was left behind
/// nor records one.
pub proof fn a_request_that_creates_nothing_records_nothing(
    request: KeyedRequest,
    limits: Limits,
    entries: Entries,
    claim: ClaimId,
    made: String,
    now: u64,
    owner_id: u128,
    fresh_owner: u128,
)
    requires
        !request.creates_run,
    ensures
        flow::transition(
            Phase::LoadingReady { carried: None },
            Event::ReadyLoaded(Ok(None)),
            request,
            entries,
            limits,
            now,
            fresh_owner,
        ).0.action == (Action::Claim { reserved_run_id: request.reserved_run_id }),
        flow::transition(
            Phase::Executing { claim, owner_id },
            Event::Executed(Ok(made)),
            request,
            entries,
            limits,
            now,
            fresh_owner,
        ).0.action == (Action::Commit { run_id: made, claim }),
{
}

/// A known key is answered from the table, a request in progress is waited for,
/// and other content is a conflict.
pub proof fn the_table_answers_first(
    request: KeyedRequest,
    entries: Entries,
    carried: Option<String>,
    digest: String,
    created_at: u64,
    run_id: String,
    owner_id: u128,
)
    ensures
        !entries.contains_key(request.key@) ==> flow::lookup(request, entries, carried) == (Step {
            phase: Phase::LoadingReady { carried },
            action: Action::LoadReady,
            wake: None,
        }),
        entries.contains_key(request.key@) && entries[request.key@] == (IdempotencyEntry::Ready {
            digest,
            created_at,
            run_id,
        }) ==> flow::lookup(request, entries, carried).action == (if digest@ == request.digest@ {
            Action::Finish(Ok(run_id))
        } else {
            Action::Finish(Err(Refusal::Conflict))
        }),
        entries.contains_key(request.key@) && entries[request.key@] == (IdempotencyEntry::Pending {
            digest,
            owner_id,
            created_at,
        }) ==> flow::lookup(request, entries, carried).action == (if digest@ == request.digest@ {
            Action::WaitLocal { owner_id }
        } else {
            Action::Finish(Err(Refusal::Conflict))
        }),
{
}

/// A request that waited looks again, with the run that it carries.
pub proof fn a_woken_request_looks_again(
    request: KeyedRequest,
    limits: Limits,
    entries: Entries,
    carried: Option<String>,
    now: u64,
    fresh_owner: u128,
)
    ensures
        flow::transition(
            Phase::WaitingLocal { carried },
            Event::Woken,
            request,
            entries,
            limits,
            now,
            fresh_owner,
        ) == (
            Step { phase: Phase::Lookup { carried }, action: Action::Consult, wake: None },
            entries,
        ),
{
}

/// A mapping on disk answers the request: its run for the same content, which
/// the table then knows, and a conflict for other content. A mapping that
/// cannot be loaded is an error.
pub proof fn a_mapping_on_disk_answers(
    request: KeyedRequest,
    limits: Limits,
    entries: Entries,
    carried: Option<String>,
    record: DurableIdempotencyRecord,
    detail: String,
    now: u64,
    fresh_owner: u128,
)
    ensures
        ({
            let (step, after) = flow::transition(
                Phase::LoadingReady { carried },
                Event::ReadyLoaded(Ok(Some(record))),
                request,
                entries,
                limits,
                now,
                fresh_owner,
            );
            if record.digest@ == request.digest@ {
                step.action == Action::Finish(Ok(record.run_id)) && after == entries.insert(
                    request.key@,
                    IdempotencyEntry::Ready {
                        digest: record.digest,
                        created_at: now,
                        run_id: record.run_id,
                    },
                )
            } else {
                step.action == Action::Finish(Err(Refusal::Conflict)) && after == entries
            }
        }),
        flow::transition(
            Phase::LoadingReady { carried },
            Event::ReadyLoaded(Err(detail)),
            request,
            entries,
            limits,
            now,
            fresh_owner,
        ) == (flow::finish(Err(Refusal::Unloadable(detail))), entries),
        flow::transition(
            Phase::LoadingReady { carried },
            Event::LoadLost(detail),
            request,
            entries,
            limits,
            now,
            fresh_owner,
        ) == (flow::finish(Err(Refusal::Internal(detail))), entries),
{
}

/// A run that was left behind for the same content is claimed; one for other
/// content is a conflict.
pub proof fn a_run_left_behind_is_claimed(
    request: KeyedRequest,
    limits: Limits,
    entries: Entries,
    run_id: String,
    digest: String,
    detail: String,
    now: u64,
    fresh_owner: u128,
)
    ensures
        flow::transition(
            Phase::ScanningOrphans,
            Event::OrphansScanned(Ok(Some((run_id, digest)))),
            request,
            entries,
            limits,
            now,
            fresh_owner,
        ).0.action == (if digest@ == request.digest@ {
            Action::Claim { reserved_run_id: Some(run_id) }
        } else {
            Action::Finish(Err(Refusal::Conflict))
        }),
        flow::transition(
            Phase::ScanningOrphans,
            Event::OrphansScanned(Err(detail)),
            request,
            entries,
            limits,
            now,
            fresh_owner,
        ).0.action == Action::Finish(Err(Refusal::Internal(detail))),
{
}

/// A claim is answered with the run that holds the key, a wait for whoever has
/// it, or a conflict.
pub proof fn a_lost_claim_is_answered(
    request: KeyedRequest,
    limits: Limits,
    entries: Entries,
    carried: Option<String>,
    run_id: String,
    answer: ApiHttpError,
    now: u64,
    fresh_owner: u128,
)
    ensures
        ({
            let ready = entries.insert(
                request.key@,
                IdempotencyEntry::Ready { digest: request.digest, created_at: now, run_id },
            );
            let claiming = Phase::Claiming { carried };
            let waiting = Phase::WaitingPeer { carried };
            let taken = flow::transition(
                claiming,
                Event::Claimed(Ok(ClaimOutcome::Ready { run_id })),
                request,
                entries,
                limits,
                now,
                fresh_owner,
            );
            let peer = flow::transition(
                claiming,
                Event::Claimed(Ok(ClaimOutcome::Peer)),
                request,
                entries,
                limits,
                now,
                fresh_owner,
            );
            let conflict = flow::transition(
                claiming,
                Event::Claimed(Ok(ClaimOutcome::Conflict)),
                request,
                entries,
                limits,
                now,
                fresh_owner,
            );
            let refused = flow::transition(
                claiming,
                Event::Claimed(Err(answer)),
                request,
                entries,
                limits,
                now,
                fresh_owner,
            );
            let told = flow::transition(
                waiting,
                Event::PeerWaited(Ok(WaitOutcome::Ready(run_id))),
                request,
                entries,
                limits,
                now,
                fresh_owner,
            );
            let given_up = flow::transition(
                waiting,
                Event::PeerWaited(Err(answer)),
                request,
                entries,
                limits,
                now,
                fresh_owner,
            );
            &&& taken.0.action == Action::Finish(Ok(run_id)) && taken.1 == ready
            &&& peer.0.action is WaitPeer && peer.0.phase == waiting && peer.1 == entries
            &&& conflict.0.action == Action::Finish(Err(Refusal::Conflict)) && conflict.1 == entries
            &&& refused.0.action == Action::Finish(Err(Refusal::Answered(answer))) && refused.1
                == entries
            &&& told.0.action == Action::Finish(Ok(run_id)) && told.1 == ready
            &&& given_up.0.action == Action::Finish(Err(Refusal::Answered(answer))) && given_up.1
                == entries
        }),
{
}

/// Where the peer is gone the request looks again, with the run that it carries
/// already, or else with the one that the peer left.
pub proof fn a_request_takes_over_from_its_peer(
    request: KeyedRequest,
    limits: Limits,
    entries: Entries,
    carried: Option<String>,
    adopted_run_id: Option<String>,
    now: u64,
    fresh_owner: u128,
)
    ensures
        ({
            let (step, after) = flow::transition(
                Phase::WaitingPeer { carried },
                Event::PeerWaited(Ok(WaitOutcome::RetryClaim { adopted_run_id })),
                request,
                entries,
                limits,
                now,
                fresh_owner,
            );
            &&& step.action is Consult
            &&& after == entries
            &&& step.phase == Phase::Lookup {
                carried: if carried is Some {
                    carried
                } else {
                    adopted_run_id
                },
            }
        }),
{
}

/// A request that finds no mapping while it carries a run claims that run.
pub proof fn a_carried_run_is_claimed_again(
    request: KeyedRequest,
    limits: Limits,
    entries: Entries,
    run_id: String,
    now: u64,
    fresh_owner: u128,
)
    ensures
        flow::transition(
            Phase::LoadingReady { carried: Some(run_id) },
            Event::ReadyLoaded(Ok(None)),
            request,
            entries,
            limits,
            now,
            fresh_owner,
        ).0.action == (Action::Claim { reserved_run_id: Some(run_id) }),
{
}

/// A claim that was won while the table filled up, or learned of the key, is
/// not used: a full table refuses the request, a known run replays, a request
/// in progress is waited for and other content is a conflict, each once the
/// claim is released.
pub proof fn a_claim_won_too_late_is_given_back(
    request: KeyedRequest,
    limits: Limits,
    entries: Entries,
    carried: Option<String>,
    run: Option<String>,
    owner: String,
    generation: u64,
    now: u64,
    fresh_owner: u128,
)
    ensures
        ({
            let claim = ClaimId { owner, generation };
            let (won, after) = flow::transition(
                Phase::Claiming { carried },
                Event::Claimed(Ok(ClaimOutcome::Owner { run_id: run, owner, generation })),
                request,
                entries,
                limits,
                now,
                fresh_owner,
            );
            let (released, _) = flow::transition(
                won.phase,
                Event::Released(true),
                request,
                after,
                limits,
                now,
                fresh_owner,
            );
            let (stuck, _) = flow::transition(
                won.phase,
                Event::Released(false),
                request,
                after,
                limits,
                now,
                fresh_owner,
            );
            &&& (!entries.contains_key(request.key@) && entries.len() >= limits.max_entries ==> {
                &&& won.action == Action::Finish(Err(Refusal::Saturated))
                &&& after == entries
            })
            &&& (entries.contains_key(request.key@) ==> {
                &&& won.action == Action::Release { claim }
                &&& after == entries
                &&& stuck.action == Action::Finish(Err(Refusal::InProgress))
                &&& match entries[request.key@] {
                    IdempotencyEntry::Ready { digest, run_id, .. } => released.action == (
                    if digest@ == request.digest@ {
                        Action::Finish(Ok(run_id))
                    } else {
                        Action::Finish(Err(Refusal::Conflict))
                    }),
                    IdempotencyEntry::Pending { digest, owner_id, .. } => released.action == (
                    if digest@ == request.digest@ {
                        Action::WaitLocal { owner_id }
                    } else {
                        Action::Finish(Err(Refusal::Conflict))
                    }),
                }
            })
        }),
{
}

/// A claim that is no longer current is not executed under: the request leaves
/// the table, wakes who waits for it, and looks again with the run that it
/// carries or adopted.
pub proof fn a_superseded_claim_is_not_executed(
    request: KeyedRequest,
    limits: Limits,
    entries: Entries,
    carried: Option<String>,
    claim: ClaimId,
    owner_id: u128,
    adopted: Option<String>,
    found: OwnerCheck,
    now: u64,
    fresh_owner: u128,
)
    requires
        found !is Current,
        is_ours(entries, request.key@, owner_id),
    ensures
        ({
            let (step, after) = flow::transition(
                Phase::Rechecking { carried, claim, owner_id, adopted },
                Event::OwnerChecked(Ok(found)),
                request,
                entries,
                limits,
                now,
                fresh_owner,
            );
            &&& step.action is Consult
            &&& step.phase == Phase::Lookup {
                carried: if carried is Some {
                    carried
                } else {
                    adopted
                },
            }
            &&& step.wake == Some(owner_id)
            &&& after == entries.remove(request.key@)
        }),
{
}

/// A request that the run service refuses gives its claim back and is answered
/// with that refusal; nothing is remembered of it.
pub proof fn a_refused_execution_is_forgotten(
    request: KeyedRequest,
    limits: Limits,
    entries: Entries,
    claim: ClaimId,
    owner_id: u128,
    refused: ApiError,
    now: u64,
    fresh_owner: u128,
)
    requires
        is_ours(entries, request.key@, owner_id),
    ensures
        ({
            let (s1, e1) = flow::transition(
                Phase::Executing { claim, owner_id },
                Event::Executed(Err(refused)),
                request,
                entries,
                limits,
                now,
                fresh_owner,
            );
            let (s2, e2) = flow::transition(
                s1.phase,
                Event::Released(true),
                request,
                e1,
                limits,
                now,
                fresh_owner,
            );
            let (s3, _) = flow::transition(
                s1.phase,
                Event::Released(false),
                request,
                e1,
                limits,
                now,
                fresh_owner,
            );
            &&& s1.action == Action::Release { claim }
            &&& e1 == entries.remove(request.key@)
            &&& s2.action == Action::Finish(Err(Refusal::Service(refused)))
            &&& s2.wake == Some(owner_id)
            &&& e2 == e1
            &&& s3.action == Action::Finish(Err(Refusal::InProgress))
            &&& s3.wake == Some(owner_id)
        }),
{
}

/// Where the key is committed to another run, the request cancels its own and
/// is answered with the committed one; where its own cannot be cancelled, it is
/// told why and leaves the table.
pub proof fn a_surplus_run_is_cancelled(
    request: KeyedRequest,
    limits: Limits,
    entries: Entries,
    claim: ClaimId,
    owner_id: u128,
    made: String,
    winner: String,
    refused: ApiError,
    now: u64,
    fresh_owner: u128,
)
    requires
        is_ours(entries, request.key@, owner_id),
        winner@ != made@,
    ensures
        ({
            let (s1, e1) = flow::transition(
                Phase::Committing { claim, owner_id, run_id: made },
                Event::Committed(Ok(winner)),
                request,
                entries,
                limits,
                now,
                fresh_owner,
            );
            let (s2, e2) = flow::transition(
                s1.phase,
                Event::RunCancelled(Ok(())),
                request,
                e1,
                limits,
                now,
                fresh_owner,
            );
            let (s3, e3) = flow::transition(
                s2.phase,
                Event::Released(true),
                request,
                e2,
                limits,
                now,
                fresh_owner,
            );
            let (s4, e4) = flow::transition(
                s1.phase,
                Event::RunCancelled(Err(refused)),
                request,
                e1,
                limits,
                now,
                fresh_owner,
            );
            &&& s1.action == Action::CancelRun { run_id: made }
            &&& e1 == entries
            &&& s2.action == Action::Release { claim }
            &&& e2.contains_key(request.key@)
            &&& e2[request.key@] == (IdempotencyEntry::Ready {
                digest: request.digest,
                created_at: now,
                run_id: winner,
            })
            &&& s3.action == Action::Finish(Ok(winner))
            &&& s3.wake == Some(owner_id)
            &&& e3 == e2
            &&& s4.action == Action::Finish(Err(Refusal::Service(refused)))
            &&& s4.wake == Some(owner_id)
            &&& e4 == entries.remove(request.key@)
        }),
{
}

/// Where the key is committed for other content, the request gives its claim
/// back, cancels its own run and is told of the conflict.
pub proof fn a_conflicting_commit_is_undone(
    request: KeyedRequest,
    limits: Limits,
    entries: Entries,
    claim: ClaimId,
    owner_id: u128,
    made: String,
    refused: ApiError,
    now: u64,
    fresh_owner: u128,
)
    requires
        is_ours(entries, request.key@, owner_id),
    ensures
        ({
            let (s1, e1) = flow::transition(
                Phase::Committing { claim, owner_id, run_id: made },
                Event::Committed(Err(StoreReadyError::DigestConflict)),
                request,
                entries,
                limits,
                now,
                fresh_owner,
            );
            let (s2, e2) = flow::transition(
                s1.phase,
                Event::Released(true),
                request,
                e1,
                limits,
                now,
                fresh_owner,
            );
            let (s3, e3) = flow::transition(
                s2.phase,
                Event::RunCancelled(Ok(())),
                request,
                e2,
                limits,
                now,
                fresh_owner,
            );
            let (s4, e4) = flow::transition(
                s2.phase,
                Event::RunCancelled(Err(refused)),
                request,
                e2,
                limits,
                now,
                fresh_owner,
            );
            let (s5, e5) = flow::transition(
                s1.phase,
                Event::Released(false),
                request,
                e1,
                limits,
                now,
                fresh_owner,
            );
            &&& s1.action == Action::Release { claim }
            &&& s2.action == Action::CancelRun { run_id: made }
            &&& s3.action == Action::Finish(Err(Refusal::Conflict))
            &&& s3.wake == Some(owner_id)
            &&& e3 == entries.remove(request.key@)
            &&& s4.action == Action::Finish(Err(Refusal::Service(refused)))
            &&& e4 == entries.remove(request.key@)
            &&& s5.action == Action::Finish(Err(Refusal::InProgress))
            &&& e5 == entries.remove(request.key@)
        }),
{
}

/// Where a commit could not be written, the request looks at what is on disk:
/// only where another run of the same content is there, its own is cancelled
/// and its claim given back. It is always told that nothing was persisted.
pub proof fn an_unwritten_commit_is_inspected(
    request: KeyedRequest,
    limits: Limits,
    entries: Entries,
    claim: ClaimId,
    owner_id: u128,
    made: String,
    detail: String,
    found: Result<Option<DurableIdempotencyRecord>, String>,
    released: bool,
    refused: ApiError,
    now: u64,
    fresh_owner: u128,
)
    requires
        is_ours(entries, request.key@, owner_id),
    ensures
        ({
            let (s1, e1) = flow::transition(
                Phase::Committing { claim, owner_id, run_id: made },
                Event::Committed(Err(StoreReadyError::Storage(detail))),
                request,
                entries,
                limits,
                now,
                fresh_owner,
            );
            let (s2, e2) = flow::transition(
                s1.phase,
                Event::ReadyLoaded(found),
                request,
                e1,
                limits,
                now,
                fresh_owner,
            );
            let (s3, e3) = flow::transition(
                s2.phase,
                Event::RunCancelled(Ok(())),
                request,
                e2,
                limits,
                now,
                fresh_owner,
            );
            let (s4, e4) = flow::transition(
                s3.phase,
                Event::Released(released),
                request,
                e3,
                limits,
                now,
                fresh_owner,
            );
            let (s5, e5) = flow::transition(
                s2.phase,
                Event::RunCancelled(Err(refused)),
                request,
                e2,
                limits,
                now,
                fresh_owner,
            );
            let (s6, e6) = flow::transition(
                s1.phase,
                Event::LoadLost(detail),
                request,
                e1,
                limits,
                now,
                fresh_owner,
            );
            let superseded = found matches Ok(Some(record)) && record.digest@ == request.digest@
                && record.run_id@ != made@;
            &&& s1.action is LoadReady
            &&& e1 == entries
            &&& (!superseded ==> s2.action == Action::Finish(Err(Refusal::Unpersisted(detail)))
                && s2.wake == Some(owner_id) && e2 == entries.remove(request.key@))
            &&& (superseded ==> {
                &&& s2.action == Action::CancelRun { run_id: made }
                &&& s3.action == Action::Release { claim }
                &&& s4.action == Action::Finish(Err(Refusal::Unpersisted(detail)))
                &&& s4.wake == Some(owner_id)
                &&& e4 == entries.remove(request.key@)
                &&& s5.action == Action::Finish(Err(Refusal::Service(refused)))
                &&& e5 == entries.remove(request.key@)
            })
            &&& s6.action == Action::Finish(Err(Refusal::Unpersisted(detail)))
            &&& e6 == entries.remove(request.key@)
        }),
{
}

/// A commit whose claim could not be given back is answered as in progress.
pub proof fn an_unreleased_commit_is_in_progress(
    request: KeyedRequest,
    limits: Limits,
    entries: Entries,
    committed: String,
    wake: Option<u128>,
    now: u64,
    fresh_owner: u128,
)
    ensures
        ({
            let (step, after) = flow::transition(
                Phase::ReleasingCommitted { committed, wake },
                Event::Released(false),
                request,
                entries,
                limits,
                now,
                fresh_owner,
            );
            &&& step.action == Action::Finish(Err(Refusal::InProgress))
            &&& step.wake == wake
            &&& after == entries
        }),
{
}

/// A request takes nothing out of the table but its own entry, and wakes nobody
/// for another's.
pub proof fn the_entry_of_another_is_left_alone(
    request: KeyedRequest,
    limits: Limits,
    entries: Entries,
    carried: Option<String>,
    claim: ClaimId,
    owner_id: u128,
    adopted: Option<String>,
    refused: ApiError,
    detail: String,
    now: u64,
    fresh_owner: u128,
)
    requires
        !is_ours(entries, request.key@, owner_id),
    ensures
        ({
            let (s1, e1) = flow::transition(
                Phase::Executing { claim, owner_id },
                Event::Executed(Err(refused)),
                request,
                entries,
                limits,
                now,
                fresh_owner,
            );
            let (s2, _) = flow::transition(
                s1.phase,
                Event::Released(true),
                request,
                e1,
                limits,
                now,
                fresh_owner,
            );
            let (s3, e3) = flow::transition(
                Phase::SettlingConflict { owner_id },
                Event::RunCancelled(Ok(())),
                request,
                entries,
                limits,
                now,
                fresh_owner,
            );
            let (s4, e4) = flow::transition(
                Phase::Rechecking { carried, claim, owner_id, adopted },
                Event::OwnerChecked(Ok(OwnerCheck::Superseded)),
                request,
                entries,
                limits,
                now,
                fresh_owner,
            );
            let (s5, e5) = flow::transition(
                Phase::ReleasingStale { owner_id, detail },
                Event::Released(true),
                request,
                entries,
                limits,
                now,
                fresh_owner,
            );
            &&& e1 == entries
            &&& s2.wake is None
            &&& e3 == entries
            &&& s3.wake is None
            &&& e4 == entries
            &&& s4.wake is None
            &&& e5 == entries
            &&& s5.wake is None
        }),
{
}

/// Each refusal is answered under its own status, with its own words.
pub proof fn a_refusal_is_answered_by_its_kind(refusal: Refusal)
    ensures
        ({
            let told = refusal.problem();
            match refusal {
                Refusal::Conflict => told.status == 409 && told.detail
                    == "Idempotency-Key was already used with a different request"@,
                Refusal::Saturated => told.status == 503 && told.detail
                    == "too many idempotent requests are still in progress"@,
                Refusal::InProgress => told.status == 503 && told.detail
                    == "idempotent request is still in progress elsewhere; retry with the same key"@,
                Refusal::Unpersisted(detail) => told.status == 500 && told.detail
                    == "failed to persist idempotency record: "@ + detail@,
                Refusal::Unloadable(detail) => told.status == 500 && told.detail
                    == "failed to load idempotency record: "@ + detail@,
                Refusal::Internal(detail) => told.status == 500 && told.detail == detail@,
                Refusal::Service(refused) => told == crate::error::api_problem(refused),
                Refusal::Answered(answer) => told == answer@,
                Refusal::OutOfStep => told.status == 500 && told.detail
                    == "idempotency admission must wait or assign an owner"@,
            }
        }),
{
}

} // verus!
