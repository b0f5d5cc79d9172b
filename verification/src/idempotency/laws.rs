//! What the durable protocol promises across calls.
use vstd::prelude::*;
use super::durable;
use super::durable::{ClaimRequest, ClaimStepModel, Commit, StoreRefusal, StoreStepModel};
use super::flow;
use super::flow::{Action, Entries, Event, KeyedRequest, Limits, Mutation, Phase, Refusal, Step};
use super::memory;
use super::memory::IdempotencyEntry;
use super::owner;
use super::owner::OwnerCheck;
use super::record::{FileModel, KeyFiles, PendingModel, ReadyModel};

verus! {

/// The key's files once a decided claim has been carried out.
pub open spec fn after_claim(files: KeyFiles, plan: durable::ClaimModel) -> KeyFiles {
    KeyFiles {
        ready: if plan.remove_ready {
            FileModel::Absent
        } else {
            files.ready
        },
        pending: match plan.step {
            Ok(ClaimStepModel::Publish(record)) => FileModel::Present(record),
            _ => files.pending,
        },
    }
}

/// The key's files once a decided commit has been carried out.
pub open spec fn after_store(files: KeyFiles, plan: durable::StoreModel) -> KeyFiles {
    KeyFiles {
        ready: match plan.step {
            Ok(StoreStepModel::Publish(record)) => FileModel::Present(record),
            _ => if plan.remove_ready {
                FileModel::Absent
            } else {
                files.ready
            },
        },
        pending: files.pending,
    }
}

/// The key's files once a decided release has been carried out.
pub open spec fn after_release(files: KeyFiles, decided: Result<bool, Seq<char>>) -> KeyFiles {
    KeyFiles {
        ready: files.ready,
        pending: if decided == Ok::<bool, Seq<char>>(true) {
            FileModel::Absent
        } else {
            files.pending
        },
    }
}

/// One operation of the durable protocol.
pub enum Operation {
    Claim(ClaimRequest),
    Commit(Commit),
    Release { owner: Seq<char>, generation: u64 },
}

impl Operation {
    /// The operation is one on `key`.
    pub open spec fn is_on(self, key: Seq<char>) -> bool {
        match self {
            Operation::Claim(request) => request.key == key,
            Operation::Commit(commit) => commit.key == key,
            Operation::Release { .. } => true,
        }
    }

    /// The operation releases this very claim.
    pub open spec fn releases(self, claim: PendingModel) -> bool {
        self matches Operation::Release { owner, generation } && owner == claim.owner && generation
            == claim.generation
    }
}

/// The key's files after an operation on the key.
pub open spec fn operated(
    key: Seq<char>,
    files: KeyFiles,
    operation: Operation,
    now: Option<u64>,
    ttl_secs: u64,
) -> KeyFiles {
    match operation {
        Operation::Claim(request) => after_claim(
            files,
            durable::claim(request, files, now, ttl_secs),
        ),
        Operation::Commit(commit) => after_store(
            files,
            durable::store(commit, files, now, ttl_secs),
        ),
        Operation::Release { owner, generation } => after_release(
            files,
            owner::release(key, owner, generation, files.pending),
        ),
    }
}

/// The key's files after a history of operations on the key, each with the
/// clock reading it was decided on.
pub open spec fn after_history(
    key: Seq<char>,
    files: KeyFiles,
    history: Seq<(Operation, Option<u64>)>,
    ttl_secs: u64,
) -> KeyFiles
    decreases history.len(),
{
    if history.len() == 0 {
        files
    } else {
        let (operation, now) = history.last();
        operated(
            key,
            after_history(key, files, history.drop_last(), ttl_secs),
            operation,
            now,
            ttl_secs,
        )
    }
}

/// Every operation of the history is on the key and was decided before what
/// was created at `created` had reached the lifetime.
pub open spec fn within(
    key: Seq<char>,
    history: Seq<(Operation, Option<u64>)>,
    created: u64,
    lifetime: u64,
) -> bool {
    forall|i: int|
        0 <= i < history.len() ==> (#[trigger] history[i]).0.is_on(key) && (history[i].1 matches Some(
            now,
        ) ==> (now - created < lifetime || now <= created))
}

/// A committed mapping is stable: no history of claims, commits and releases,
/// by whomever and in whatever order, changes or removes it while it lives.
pub proof fn a_live_mapping_outlives_every_history(
    key: Seq<char>,
    files: KeyFiles,
    mapping: ReadyModel,
    history: Seq<(Operation, Option<u64>)>,
    ttl_secs: u64,
)
    requires
        files.ready == FileModel::Present(mapping),
        mapping.key == key,
        within(key, history, mapping.created, ttl_secs),
    ensures
        after_history(key, files, history, ttl_secs).ready == files.ready,
    decreases history.len(),
{
    if history.len() > 0 {
        let earlier = history.drop_last();
        assert forall|i: int| 0 <= i < earlier.len() implies (#[trigger] earlier[i]).0.is_on(key)
            && (earlier[i].1 matches Some(now) ==> (now - mapping.created < ttl_secs || now
            <= mapping.created)) by {
            assert(earlier[i] == history[i]);
        }
        a_live_mapping_outlives_every_history(key, files, mapping, earlier, ttl_secs);
        assert(history.last() == history[history.len() - 1]);
    }
}

/// A claim is exclusive: no history of claims, commits and releases changes or
/// removes it while it lives, unless its own owner releases it.
pub proof fn a_live_claim_outlives_every_other_owner(
    key: Seq<char>,
    files: KeyFiles,
    claim: PendingModel,
    history: Seq<(Operation, Option<u64>)>,
    ttl_secs: u64,
)
    requires
        files.pending == FileModel::Present(claim),
        claim.key == key,
        within(key, history, claim.created, 60),
        forall|i: int| 0 <= i < history.len() ==> !(#[trigger] history[i]).0.releases(claim),
    ensures
        after_history(key, files, history, ttl_secs).pending == files.pending,
    decreases history.len(),
{
    if history.len() > 0 {
        let earlier = history.drop_last();
        assert forall|i: int| 0 <= i < earlier.len() implies (#[trigger] earlier[i]).0.is_on(key)
            && !earlier[i].0.releases(claim) && (earlier[i].1 matches Some(now)
            ==> now - claim.created < 60) by {
            assert(earlier[i] == history[i]);
        }
        a_live_claim_outlives_every_other_owner(key, files, claim, earlier, ttl_secs);
        assert(history.last() == history[history.len() - 1]);
    }
}

/// One key, one run: once a run has been committed to a key, and for as long
/// as the mapping lives, no history of operations makes another commit on the
/// key publish anything, and a commit for the same request that succeeds
/// converges onto that run.
pub proof fn one_key_names_one_run(
    first: Commit,
    files: KeyFiles,
    at: u64,
    history: Seq<(Operation, Option<u64>)>,
    second: Commit,
    later: u64,
    ttl_secs: u64,
)
    requires
        durable::store(first, files, Some(at), ttl_secs).step matches Ok(
            StoreStepModel::Publish(_),
        ),
        second.key == first.key,
        within(first.key, history, at, ttl_secs),
        later - at < ttl_secs || later <= at,
    ensures
        ({
            let stored = after_store(files, durable::store(first, files, Some(at), ttl_secs));
            let left = after_history(first.key, stored, history, ttl_secs);
            let plan = durable::store(second, left, Some(later), ttl_secs);
            &&& !(plan.step matches Ok(StoreStepModel::Publish(_)))
            &&& plan.step matches Ok(StoreStepModel::Converged(run_id)) ==> run_id == first.run_id
                && second.digest == first.digest
        }),
{
    let stored = after_store(files, durable::store(first, files, Some(at), ttl_secs));
    let mapping = stored.ready->Present_0;
    a_live_mapping_outlives_every_history(first.key, stored, mapping, history, ttl_secs);
}

/// Mutual exclusion: while a published claim is live, every further claim on
/// the key is a peer when it is for the same request and a conflict when it is
/// not, and neither writes anything.
pub proof fn a_live_claim_excludes_every_other(
    first: ClaimRequest,
    files: KeyFiles,
    at: u64,
    ttl_secs: u64,
    second: ClaimRequest,
    later: u64,
    later_ttl_secs: u64,
)
    requires
        durable::claim(first, files, Some(at), ttl_secs).step matches Ok(ClaimStepModel::Publish(_)),
        second.key == first.key,
        later - at < 60,
    ensures
        ({
            let claimed = after_claim(files, durable::claim(first, files, Some(at), ttl_secs));
            let plan = durable::claim(second, claimed, Some(later), later_ttl_secs);
            &&& plan.step == if second.digest == first.digest {
                Ok::<_, crate::error::ProblemModel>(ClaimStepModel::Peer)
            } else {
                Ok::<_, crate::error::ProblemModel>(ClaimStepModel::Conflict)
            }
            &&& after_claim(claimed, plan) == claimed
        }),
{
}

/// An owner that executes within the lifetime of its claim can commit the run
/// it reserved.
pub proof fn a_claim_can_be_committed(
    request: ClaimRequest,
    files: KeyFiles,
    at: u64,
    ttl_secs: u64,
    later: u64,
)
    requires
        durable::claim(request, files, Some(at), ttl_secs).step matches Ok(
            ClaimStepModel::Publish(record),
        ) && record.run_id is Some,
        later - at < 60,
    ensures
        ({
            let plan = durable::claim(request, files, Some(at), ttl_secs);
            let record = plan.step->Ok_0->Publish_0;
            let commit = Commit {
                key: request.key,
                digest: request.digest,
                run_id: record.run_id->0,
                owner: request.owner,
                generation: record.generation,
            };
            durable::store(commit, after_claim(files, plan), Some(later), ttl_secs).step == Ok::<
                _,
                StoreRefusal,
            >(
                StoreStepModel::Publish(
                    ReadyModel {
                        key: request.key,
                        digest: request.digest,
                        run_id: record.run_id->0,
                        created: later,
                        generation: record.generation,
                    },
                ),
            )
        }),
{
}

/// What a commit wrote, every later request of the key reads: the same request
/// gets the committed run, another request a conflict, for as long as the
/// mapping lives and whatever became of the claim, provided it can be read.
pub proof fn a_commit_answers_every_later_claim(
    commit: Commit,
    files: KeyFiles,
    at: u64,
    ttl_secs: u64,
    pending: FileModel<PendingModel>,
    request: ClaimRequest,
    later: u64,
)
    requires
        durable::store(commit, files, Some(at), ttl_secs).step matches Ok(
            StoreStepModel::Publish(_),
        ),
        request.key == commit.key,
        pending !is Unreadable,
        later - at < ttl_secs || later <= at,
    ensures
        ({
            let stored = after_store(files, durable::store(commit, files, Some(at), ttl_secs));
            let seen = KeyFiles { ready: stored.ready, pending };
            let plan = durable::claim(request, seen, Some(later), ttl_secs);
            &&& plan.step == if request.digest == commit.digest {
                Ok::<_, crate::error::ProblemModel>(ClaimStepModel::Ready(commit.run_id))
            } else {
                Ok::<_, crate::error::ProblemModel>(ClaimStepModel::Conflict)
            }
            &&& after_claim(seen, plan) == seen
        }),
{
}

/// A mapping is only published by the live owner of the key: the claim on disk
/// is unexpired and matches in owner, generation, digest and reserved run.
pub proof fn only_the_live_owner_publishes(
    commit: Commit,
    files: KeyFiles,
    now: Option<u64>,
    ttl_secs: u64,
)
    requires
        durable::store(commit, files, now, ttl_secs).step matches Ok(StoreStepModel::Publish(_)),
    ensures
        files.pending matches FileModel::Present(claim) && claim.key == commit.key && claim.owner
            == commit.owner && claim.generation == commit.generation && claim.digest
            == commit.digest && claim.run_id == Some(commit.run_id) && now is Some
            && now->0 - claim.created < 60,
{
}

/// Once another claimant has taken the key over, the earlier owner cannot
/// commit, however the generations of the two compare.
pub proof fn a_superseded_owner_cannot_commit(
    successor: ClaimRequest,
    files: KeyFiles,
    at: u64,
    ttl_secs: u64,
    stale: Commit,
    later: u64,
)
    requires
        durable::claim(successor, files, Some(at), ttl_secs).step matches Ok(
            ClaimStepModel::Publish(_),
        ),
        stale.key == successor.key,
        stale.owner != successor.owner,
    ensures
        ({
            let taken = after_claim(files, durable::claim(successor, files, Some(at), ttl_secs));
            let plan = durable::store(stale, taken, Some(later), ttl_secs);
            plan.step is Err && after_store(taken, plan) == taken
        }),
{
}

/// Generations grow: a new claim passes the generation of the claim and of the
/// mapping that were there before, expired or not.
pub proof fn generations_grow(
    request: ClaimRequest,
    files: KeyFiles,
    now: Option<u64>,
    ttl_secs: u64,
)
    requires
        durable::claim(request, files, now, ttl_secs).step matches Ok(ClaimStepModel::Publish(_)),
    ensures
        ({
            let record = durable::claim(request, files, now, ttl_secs).step->Ok_0->Publish_0;
            &&& files.pending matches FileModel::Present(claim) ==> record.generation
                > claim.generation || claim.generation == u64::MAX
            &&& files.ready matches FileModel::Present(mapping) ==> record.generation
                > mapping.generation || mapping.generation == u64::MAX
            &&& record.generation >= 1
        }),
{
}

/// A retry of the same request takes over the run of an owner that died: the
/// new claim carries the expired claim's run id.
pub proof fn an_expired_claim_is_adopted(
    request: ClaimRequest,
    files: KeyFiles,
    now: u64,
    ttl_secs: u64,
    dead: PendingModel,
)
    requires
        files.ready is Absent,
        files.pending == FileModel::Present(dead),
        dead.key == request.key,
        now - dead.created >= 60,
    ensures
        ({
            let step = durable::claim(request, files, Some(now), ttl_secs).step;
            &&& step matches Ok(ClaimStepModel::Publish(record))
            &&& record.owner == request.owner
            &&& record.run_id == if dead.digest == request.digest && dead.run_id is Some {
                dead.run_id
            } else {
                request.reserved
            }
        }),
{
}

/// A release never removes the claim of anyone else.
pub proof fn a_release_spares_other_owners(
    key: Seq<char>,
    owner: Seq<char>,
    generation: u64,
    files: KeyFiles,
)
    ensures
        ({
            let left = after_release(files, owner::release(key, owner, generation, files.pending));
            ||| left.pending == files.pending
            ||| files.pending matches FileModel::Present(claim) && claim.owner == owner
                && claim.generation == generation && claim.key == key
        }),
{
}

/// After its release a claim is gone, and the key can be claimed afresh.
pub proof fn a_released_key_can_be_claimed(
    request: ClaimRequest,
    files: KeyFiles,
    at: u64,
    ttl_secs: u64,
    next: ClaimRequest,
    later: u64,
)
    requires
        durable::claim(request, files, Some(at), ttl_secs).step matches Ok(
            ClaimStepModel::Publish(_),
        ),
        next.key == request.key,
    ensures
        ({
            let plan = durable::claim(request, files, Some(at), ttl_secs);
            let record = plan.step->Ok_0->Publish_0;
            let claimed = after_claim(files, plan);
            let left = after_release(
                claimed,
                owner::release(request.key, request.owner, record.generation, claimed.pending),
            );
            &&& left.pending is Absent
            &&& durable::claim(next, left, Some(later), ttl_secs).step matches Ok(
                ClaimStepModel::Publish(again),
            ) && again.owner == next.owner && again.run_id == next.reserved
        }),
{
}

/// Repeating a commit converges onto the run that it committed, while the claim
/// is live and after it was released alike.
pub proof fn a_commit_can_be_repeated(
    commit: Commit,
    files: KeyFiles,
    at: u64,
    ttl_secs: u64,
    later: u64,
    released: bool,
)
    requires
        durable::store(commit, files, Some(at), ttl_secs).step matches Ok(
            StoreStepModel::Publish(_),
        ),
        later - at < ttl_secs || later <= at,
        !released ==> (files.pending matches FileModel::Present(claim) && later - claim.created
            < 60),
    ensures
        ({
            let stored = after_store(files, durable::store(commit, files, Some(at), ttl_secs));
            let left = if released {
                after_release(
                    stored,
                    owner::release(commit.key, commit.owner, commit.generation, stored.pending),
                )
            } else {
                stored
            };
            durable::store(commit, left, Some(later), ttl_secs).step == Ok::<_, StoreRefusal>(
                StoreStepModel::Converged(commit.run_id),
            )
        }),
{
}

/// Damage is never healed over: while the claim file is corrupt or belongs to
/// another key, no claim, no commit of a new mapping and no ownership check
/// succeeds, no release removes it, and nothing of it is rewritten.
pub proof fn a_damaged_claim_stays_for_the_operator(
    request: ClaimRequest,
    commit: Commit,
    files: KeyFiles,
    now: Option<u64>,
    ttl_secs: u64,
)
    requires
        commit.key == request.key,
        files.ready is Absent,
        files.pending is Corrupt || (files.pending matches FileModel::Present(claim) && claim.key
            != request.key),
    ensures
        durable::claim(request, files, now, ttl_secs).step is Err,
        durable::store(commit, files, now, ttl_secs).step is Err,
        owner::owner_check(
            commit.key,
            commit.owner,
            commit.generation,
            commit.digest,
            files.pending,
            now,
        ) is Err,
        owner::release(commit.key, commit.owner, commit.generation, files.pending) is Err,
{
}

/// A waiter agrees with a claimant about a committed mapping: it is told the
/// committed run or a conflict, never to claim again.
pub proof fn a_waiter_converges_on_the_commit(
    digest: Seq<char>,
    committed: ReadyModel,
    claim: durable::PendingReadModel,
    deadline_passed: bool,
    after: owner::AfterRecheckModel,
)
    ensures
        owner::wait_step(digest, Ok(Some(committed)), claim, deadline_passed)
            == owner::WaitStepModel::Finish(
            owner::recheck_result(digest, after, Ok(Some(committed))),
        ),
        committed.digest == digest ==> owner::recheck_result(digest, after, Ok(Some(committed)))
            == Ok::<_, crate::error::ProblemModel>(owner::WaitModel::Ready(committed.run_id)),
        committed.digest != digest ==> owner::recheck_result(digest, after, Ok(Some(committed)))
            == Err::<owner::WaitModel, _>(
            crate::error::conflict_problem(durable::conflict_detail()),
        ),
{
}

/// Nothing is executed without a claim that was found current just before.
pub proof fn execution_follows_a_current_claim(
    phase: Phase,
    event: Event,
    request: KeyedRequest,
    entries: Entries,
    limits: Limits,
    now: u64,
    fresh_owner: u128,
)
    requires
        flow::transition(
            phase,
            event,
            request,
            entries,
            limits,
            now,
            fresh_owner,
        ).0.action is Execute,
    ensures
        phase is Rechecking,
        event == Event::OwnerChecked(Ok(OwnerCheck::Current)),
{
}

/// A request executes once: from execution on, no step goes back to admission
/// and none executes again, whatever the store and the table say.
pub proof fn a_request_executes_once(
    phase: Phase,
    event: Event,
    request: KeyedRequest,
    entries: Entries,
    limits: Limits,
    now: u64,
    fresh_owner: u128,
)
    requires
        flow::began(phase) || phase is Done,
    ensures
        ({
            let step = flow::transition(
                phase,
                event,
                request,
                entries,
                limits,
                now,
                fresh_owner,
            ).0;
            (flow::began(step.phase) && step.phase !is Executing || step.phase is Done)
                && step.action !is Execute
        }),
{
}

/// The steps of a request without a key, given what came of its actions.
pub open spec fn unkeyed_steps(reserved_run_id: Option<String>, events: Seq<Event>) -> Seq<Step>
    decreases events.len(),
{
    if events.len() == 0 {
        seq![flow::first_step(Mutation::Unkeyed { reserved_run_id })]
    } else {
        let earlier = unkeyed_steps(reserved_run_id, events.drop_last());
        earlier.push(flow::unkeyed_step(earlier.last().phase, events.last()))
    }
}

/// A request without a key executes exactly once, under the run id reserved
/// for it, and is then answered with its run or with the refusal of the run
/// service. It asks for nothing but its execution and its answer, so no entry,
/// claim or record is read or written for it.
pub proof fn an_unkeyed_request_executes_once(reserved_run_id: Option<String>, events: Seq<Event>)
    ensures
        ({
            let steps = unkeyed_steps(reserved_run_id, events);
            &&& steps.len() == events.len() + 1
            &&& steps[0].action == Action::Execute { run_id: reserved_run_id }
            &&& forall|i: int|
                1 <= i < steps.len() ==> (#[trigger] steps[i]).action is Finish && steps[i].phase is Done
            &&& forall|i: int| 0 <= i < steps.len() ==> (#[trigger] steps[i]).wake is None
            &&& events.len() > 0 ==> (events[0] matches Event::Executed(executed)
                ==> match executed {
                Ok(run_id) => steps[1].action == Action::Finish(Ok(run_id)),
                Err(refused) => steps[1].action matches Action::Finish(Err(refusal))
                    && refusal.problem() == crate::error::api_problem(refused),
            })
        }),
    decreases events.len(),
{
    if events.len() > 0 {
        let (earlier, steps) = (
            unkeyed_steps(reserved_run_id, events.drop_last()),
            unkeyed_steps(reserved_run_id, events),
        );
        an_unkeyed_request_executes_once(reserved_run_id, events.drop_last());
        assert forall|i: int| 0 <= i < earlier.len() implies #[trigger] steps[i] == earlier[i] by {}
        if events.len() == 1 {
            assert(earlier.last() == earlier[0]);
        } else {
            assert(events.drop_last()[0] == events[0]);
        }
    }
}

/// A step touches no key but its own.
pub proof fn a_step_touches_its_own_key_only(
    phase: Phase,
    event: Event,
    request: KeyedRequest,
    entries: Entries,
    limits: Limits,
    now: u64,
    fresh_owner: u128,
    other: Seq<char>,
)
    requires
        other != request.key@,
    ensures
        ({
            let after = flow::transition(
                phase,
                event,
                request,
                entries,
                limits,
                now,
                fresh_owner,
            ).1;
            after.contains_key(other) == entries.contains_key(other) && (entries.contains_key(other)
                ==> after[other] == entries[other])
        }),
{
}

/// Memory never advertises a run that durable storage did not confirm: a known
/// run enters the table only from a mapping that was read, from a commit that
/// succeeded, or from a peer's commit.
pub proof fn memory_advertises_durable_runs_only(
    phase: Phase,
    event: Event,
    request: KeyedRequest,
    entries: Entries,
    limits: Limits,
    now: u64,
    fresh_owner: u128,
)
    requires
        ({
            let after = flow::transition(
                phase,
                event,
                request,
                entries,
                limits,
                now,
                fresh_owner,
            ).1;
            after.contains_key(request.key@) && after[request.key@] is Ready && !(
            entries.contains_key(request.key@) && entries[request.key@] == after[request.key@])
        }),
    ensures
        ({
            let known = flow::transition(
                phase,
                event,
                request,
                entries,
                limits,
                now,
                fresh_owner,
            ).1[request.key@]->Ready_run_id;
            ||| event matches Event::ReadyLoaded(Ok(Some(record))) && record.run_id == known
                && record.digest@ == request.digest@
            ||| event matches Event::Claimed(Ok(durable::ClaimOutcome::Ready { run_id })) && run_id
                == known
            ||| event matches Event::PeerWaited(Ok(owner::WaitOutcome::Ready(run_id))) && run_id
                == known
            ||| event matches Event::Committed(Ok(run_id)) && run_id == known
            ||| phase matches Phase::SettlingSurplus { committed, .. } && committed == known
        }),
{
}

/// The in-memory owner that a phase from execution on acts for.
pub open spec fn acting_owner(phase: Phase) -> Option<u128> {
    match phase {
        Phase::Executing { owner_id, .. } => Some(owner_id),
        Phase::Recording { owner_id, .. } => Some(owner_id),
        Phase::Committing { owner_id, .. } => Some(owner_id),
        Phase::SettlingSurplus { owner_id, .. } => Some(owner_id),
        Phase::ReleasingConflict { owner_id, .. } => Some(owner_id),
        Phase::SettlingConflict { owner_id } => Some(owner_id),
        Phase::InspectingReady { owner_id, .. } => Some(owner_id),
        Phase::SettlingStale { owner_id, .. } => Some(owner_id),
        Phase::ReleasingStale { owner_id, .. } => Some(owner_id),
        _ => None,
    }
}

/// A request that executed leaves no entry in progress behind: by the time it
/// is answered its own entry is gone, and where the step took it out its
/// waiters are woken or will be once the claim is released.
pub proof fn an_executed_request_leaves_no_pending_entry(
    phase: Phase,
    event: Event,
    request: KeyedRequest,
    entries: Entries,
    limits: Limits,
    now: u64,
    fresh_owner: u128,
)
    requires
        acting_owner(phase) is Some,
    ensures
        ({
            let owner_id = acting_owner(phase)->0;
            let (step, after) = flow::transition(
                phase,
                event,
                request,
                entries,
                limits,
                now,
                fresh_owner,
            );
            &&& acting_owner(step.phase) == Some(owner_id) || step.action == Action::Finish(
                Err(Refusal::OutOfStep),
            ) || !flow::owns_entry(after, request.key@, owner_id)
            &&& flow::owns_entry(entries, request.key@, owner_id) && !flow::owns_entry(
                after,
                request.key@,
                owner_id,
            ) ==> step.wake == Some(owner_id) || (step.phase matches Phase::ReleasingFailed {
                wake,
                ..
            } && wake == Some(owner_id)) || (step.phase matches Phase::ReleasingCommitted {
                wake,
                ..
            } && wake == Some(owner_id))
        }),
{
}

/// A key that is known for other content is refused as a conflict before
/// anything is claimed or executed, from memory as from the durable store.
pub proof fn other_content_conflicts_at_once(
    request: KeyedRequest,
    entries: Entries,
    carried: Option<String>,
    limits: Limits,
    now: u64,
    fresh_owner: u128,
    loaded: super::record::DurableIdempotencyRecord,
)
    ensures
        entries.contains_key(request.key@) && (match entries[request.key@] {
            IdempotencyEntry::Ready { digest, .. } => digest@ != request.digest@,
            IdempotencyEntry::Pending { digest, .. } => digest@ != request.digest@,
        }) ==> flow::lookup(request, entries, carried) == flow::finish(Err(Refusal::Conflict)),
        loaded.digest@ != request.digest@ ==> flow::transition(
            Phase::LoadingReady { carried },
            Event::ReadyLoaded(Ok(Some(loaded))),
            request,
            entries,
            limits,
            now,
            fresh_owner,
        ) == (flow::finish(Err(Refusal::Conflict)), entries),
{
}

/// A run id left behind by a dead owner is not lost: every claim that is made
/// while one is carried asks for that run.
pub proof fn a_carried_run_is_claimed(
    phase: Phase,
    event: Event,
    request: KeyedRequest,
    entries: Entries,
    limits: Limits,
    now: u64,
    fresh_owner: u128,
)
    ensures
        ({
            let step = flow::transition(
                phase,
                event,
                request,
                entries,
                limits,
                now,
                fresh_owner,
            ).0;
            step.action matches Action::Claim { reserved_run_id } ==> (match phase {
                Phase::LoadingReady { carried: Some(run_id) } => reserved_run_id == Some(run_id),
                _ => true,
            }) && (match event {
                Event::OrphansScanned(Ok(Some((run_id, _)))) => reserved_run_id == Some(run_id),
                _ => true,
            })
        }),
{
}

/// Pruning never drops a request in progress for want of room, and leaves room
/// for one more entry unless requests in progress fill the table.
pub proof fn pruning_keeps_requests_in_progress(
    before: Entries,
    after: Entries,
    now: u64,
    ttl_secs: u64,
    max_entries: nat,
    key: Seq<char>,
)
    requires
        memory::pruned(before, after, now, ttl_secs, max_entries),
        before.contains_key(key),
        before[key] is Pending,
        ttl_secs > 0,
        now - before[key]->Pending_created_at < ttl_secs * 1_000_000_000,
    ensures
        after.contains_key(key),
        after[key] == before[key],
        after.len() < max_entries || forall|other: Seq<char>| #[trigger]
            after.contains_key(other) ==> after[other] is Pending,
{
    let fresh = memory::fresh_entries(before, now, ttl_secs);
    assert(fresh.contains_key(key));
    assert(after.contains_key(key));
    assert(after.dom().contains(key));
}

} // verus!
