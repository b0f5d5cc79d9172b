//! What a keyed request that is sent again is answered, over the key's files
//! and the in-memory table together, whatever else goes on.
use vstd::prelude::*;
use super::durable;
use super::durable::{ClaimOutcome, ClaimRequest, ClaimStepModel, Commit, StoreStepModel};
use super::flow;
use super::flow::{Action, ClaimId, Entries, Event, KeyedRequest, Limits, Phase, Step};
use super::laws;
use super::laws::Operation;
use super::memory;
use super::memory::IdempotencyEntry;
use super::owner;
use super::owner::WaitOutcome;
use super::record::{FileModel, KeyFiles, ReadyModel};

verus! {

/// A keyed request that is being served, and where it stands.
pub struct Served {
    pub request: KeyedRequest,
    pub phase: Phase,
}

/// One process and the files of one key: the files, the table, the other
/// requests that the process serves, and the last step of the request that is
/// followed.
pub struct World {
    pub files: KeyFiles,
    pub entries: Entries,
    pub others: Map<nat, Served>,
    pub ours: Step,
}

/// One thing that happens to a world. `at` is a reading of the wall clock that files
/// are dated by, and `now` one of the process clock.
pub enum Turn {
    /// Someone, in this process or in another one, operates on the key's files.
    Store { operation: Operation, at: Option<u64> },
    /// The process ends and another one takes its place: what was in memory is
    /// gone, and the followed request is sent again.
    Restart,
    /// Another request arrives.
    Arrive { id: nat, request: KeyedRequest },
    /// Another request takes its next step.
    Theirs { id: nat, event: Event, at: Option<u64>, now: u64, fresh_owner: u128 },
    /// The followed request takes its next step.
    Ours { event: Event, at: Option<u64>, now: u64, fresh_owner: u128 },
}

/// What the key's files say of the committed mapping: the live one, none, or
/// why they cannot be trusted.
pub open spec fn live_mapping(
    key: Seq<char>,
    files: KeyFiles,
    at: Option<u64>,
    ttl_secs: u64,
) -> Result<Option<ReadyModel>, Seq<char>> {
    match durable::reaped_ready(key, files.ready, at, ttl_secs) {
        Ok(reaped) => Ok(reaped.live),
        Err(detail) => Err(detail),
    }
}

/// The live mapping is of this request and names this run.
pub open spec fn maps_to(
    request: KeyedRequest,
    live: Result<Option<ReadyModel>, Seq<char>>,
    run_id: Seq<char>,
) -> bool {
    live matches Ok(Some(mapping)) && mapping.digest == request.digest@ && mapping.run_id == run_id
}

/// Where an event names a committed run, the files name it. A claim was won
/// where there was no mapping; for the content of the mapping it may also have
/// been won before the mapping was made, as a look at the files that found none
/// may be from before.
pub open spec fn is_true(
    event: Event,
    request: KeyedRequest,
    live: Result<Option<ReadyModel>, Seq<char>>,
) -> bool {
    match event {
        Event::ReadyLoaded(Ok(Some(record))) => live == Ok::<_, Seq<char>>(Some(record@)),
        Event::Claimed(Ok(ClaimOutcome::Owner { .. })) => live matches Ok(mapping) && (mapping
            matches Some(mapping) ==> mapping.digest == request.digest@),
        Event::Claimed(Ok(ClaimOutcome::Ready { run_id })) => maps_to(request, live, run_id@),
        Event::PeerWaited(Ok(WaitOutcome::Ready(run_id))) => maps_to(request, live, run_id@),
        Event::Committed(Ok(run_id)) => maps_to(request, live, run_id@),
        _ => true,
    }
}

/// A request in `phase` takes its next step: it consults the pruned table, or
/// goes on with what came of its last action.
pub open spec fn takes(
    served: Served,
    event: Event,
    before: Entries,
    after: Entries,
    limits: Limits,
    now: u64,
    fresh_owner: u128,
    step: Step,
) -> bool {
    match served.phase {
        Phase::Lookup { carried } => memory::pruned(
            before,
            after,
            now,
            limits.ttl_secs,
            limits.max_entries as nat,
        ) && step == flow::lookup(served.request, after, carried),
        phase => (step, after) == flow::transition(
            phase,
            event,
            served.request,
            before,
            limits,
            now,
            fresh_owner,
        ),
    }
}

/// The event is what came of the action that the followed request waits for:
/// it is woken, or it is told what the files say.
pub open spec fn fits(
    phase: Phase,
    event: Event,
    live: Result<Option<ReadyModel>, Seq<char>>,
) -> bool {
    match phase {
        Phase::WaitingLocal { .. } => event is Woken,
        Phase::LoadingReady { .. } => event matches Event::ReadyLoaded(loaded) && owner::load_model(
            loaded,
        ) == live,
        _ => true,
    }
}

/// A turn leads from one world to the next. The followed request is `request`,
/// and the key is its key.
pub open spec fn leads(
    before: World,
    after: World,
    turn: Turn,
    request: KeyedRequest,
    limits: Limits,
) -> bool {
    let key = request.key@;
    let ttl_secs = limits.ttl_secs;
    match turn {
        Turn::Store { operation, at } => {
            &&& operation.is_on(key)
            &&& after.files == laws::operated(key, before.files, operation, at, ttl_secs)
            &&& after.entries == before.entries
            &&& after.others == before.others
            &&& after.ours == before.ours
        },
        Turn::Restart => {
            &&& after.files == before.files
            &&& after.entries == Entries::empty()
            &&& after.others == Map::<nat, Served>::empty()
            &&& after.ours == flow::consult_again(None)
        },
        Turn::Arrive { id, request: other } => {
            &&& after.files == before.files
            &&& after.entries == before.entries
            &&& after.others == before.others.insert(
                id,
                Served { request: other, phase: Phase::Lookup { carried: None } },
            )
            &&& after.ours == before.ours
        },
        Turn::Theirs { id, event, at, now, fresh_owner } => {
            let served = before.others[id];
            &&& before.others.contains_key(id)
            &&& served.request.key@ == key ==> is_true(
                event,
                served.request,
                live_mapping(key, before.files, at, ttl_secs),
            )
            &&& after.files == before.files
            &&& exists|step: Step| #[trigger]
                takes(
                    served,
                    event,
                    before.entries,
                    after.entries,
                    limits,
                    now,
                    fresh_owner,
                    step,
                ) && after.others == before.others.insert(id, Served { phase: step.phase, ..served })
            &&& after.ours == before.ours
        },
        Turn::Ours { event, at, now, fresh_owner } => {
            let served = Served { request, phase: before.ours.phase };
            &&& before.ours.phase !is Done
            &&& fits(before.ours.phase, event, live_mapping(key, before.files, at, ttl_secs))
            &&& after.files == before.files
            &&& takes(
                served,
                event,
                before.entries,
                after.entries,
                limits,
                now,
                fresh_owner,
                after.ours,
            )
            &&& after.others == before.others
        },
    }
}

/// The turn is taken while the mapping lives, by a clock that can be read where
/// the followed request asks for it.
pub open spec fn in_time(turn: Turn, mapping: ReadyModel, ttl_secs: u64) -> bool {
    match turn {
        Turn::Store { at: Some(at), .. } => at - mapping.created < ttl_secs || at
            <= mapping.created,
        Turn::Theirs { at: Some(at), .. } => at - mapping.created < ttl_secs || at
            <= mapping.created,
        Turn::Ours { at, .. } => at matches Some(at) && (at - mapping.created < ttl_secs
            || at <= mapping.created),
        _ => true,
    }
}

/// The worlds that these turns lead through.
pub open spec fn course(
    worlds: Seq<World>,
    turns: Seq<Turn>,
    request: KeyedRequest,
    mapping: ReadyModel,
    limits: Limits,
) -> bool {
    &&& worlds.len() == turns.len() + 1
    &&& forall|i: int|
        #![trigger turns[i]]
        0 <= i < turns.len() ==> leads(worlds[i], worlds[i + 1], turns[i], request, limits)
            && in_time(turns[i], mapping, limits.ttl_secs)
}

/// What the table knows of the key is the mapping, or a request for the same
/// content that is in progress.
pub open spec fn agrees(entries: Entries, mapping: ReadyModel) -> bool {
    entries.contains_key(mapping.key) ==> match entries[mapping.key] {
        IdempotencyEntry::Ready { digest, run_id, .. } => digest@ == mapping.digest && run_id@
            == mapping.run_id,
        IdempotencyEntry::Pending { digest, .. } => digest@ == mapping.digest,
    }
}

/// Every request of the key that gives its own run up does so for the mapping.
pub open spec fn settles_for(others: Map<nat, Served>, mapping: ReadyModel) -> bool {
    forall|id: nat| #[trigger]
        others.contains_key(id) && others[id].request.key@ == mapping.key ==> match others[id].phase {
            Phase::SettlingSurplus { committed, .. } => others[id].request.digest@ == mapping.digest
                && committed@ == mapping.run_id,
            _ => true,
        }
}

/// The followed request is on its way to the run, or was answered with it. In
/// none of these steps anything is claimed, executed, committed or cancelled.
pub open spec fn replays(ours: Step, run_id: Seq<char>) -> bool {
    match ours.phase {
        Phase::Lookup { .. } => ours.action is Consult,
        Phase::WaitingLocal { .. } => ours.action is WaitLocal,
        Phase::LoadingReady { .. } => ours.action is LoadReady,
        Phase::Done => ours.action matches Action::Finish(Ok(answer)) && answer@ == run_id,
        _ => false,
    }
}

/// The mapping is there for everyone who looks, and so the followed request
/// replays it.
pub open spec fn holds(world: World, mapping: ReadyModel) -> bool {
    &&& world.files.ready == FileModel::Present(mapping)
    &&& agrees(world.entries, mapping)
    &&& settles_for(world.others, mapping)
    &&& replays(world.ours, mapping.run_id)
}

/// What the store answers is true of the mapping: a claim is won only where
/// none lives, and a run is named, to a claimant, to a waiter or to a commit,
/// only where the live mapping names it for the same content.
pub proof fn the_store_tells_the_mapping(
    request: KeyedRequest,
    files: KeyFiles,
    at: Option<u64>,
    ttl_secs: u64,
    claimant: ClaimRequest,
    commit: Commit,
    after: owner::AfterRecheckModel,
    claim: durable::PendingReadModel,
    deadline_passed: bool,
)
    requires
        claimant.key == request.key@,
        claimant.digest == request.digest@,
        commit.key == request.key@,
        commit.digest == request.digest@,
    ensures
        ({
            let live = live_mapping(request.key@, files, at, ttl_secs);
            let claimed = durable::claim(claimant, files, at, ttl_secs);
            let stored = durable::store(commit, files, at, ttl_secs);
            &&& (claimed.step matches Ok(ClaimStepModel::Publish(_)) ==> live == Ok::<
                Option<ReadyModel>,
                Seq<char>,
            >(None))
            &&& (claimed.step matches Ok(ClaimStepModel::Ready(run_id)) ==> maps_to(
                request,
                live,
                run_id,
            ))
            &&& (stored.step matches Ok(StoreStepModel::Converged(run_id)) ==> maps_to(
                request,
                live,
                run_id,
            ))
            &&& (stored.step matches Ok(StoreStepModel::Publish(_)) ==> maps_to(
                request,
                live_mapping(request.key@, laws::after_store(files, stored), at, ttl_secs),
                commit.run_id,
            ))
            &&& (owner::wait_step(request.digest@, live, claim, deadline_passed)
                matches owner::WaitStepModel::Finish(Ok(owner::WaitModel::Ready(run_id)))
                ==> maps_to(request, live, run_id))
            &&& (owner::recheck_result(request.digest@, after, live) matches Ok(
                owner::WaitModel::Ready(run_id),
            ) ==> maps_to(request, live, run_id))
        }),
{
}

/// A run that was just committed and published is what the table knows.
pub proof fn a_published_run_agrees(
    first: KeyedRequest,
    entries: Entries,
    claim: ClaimId,
    owner_id: u128,
    committed: String,
    now: u64,
    mapping: ReadyModel,
)
    requires
        mapping.key == first.key@,
        mapping.digest == first.digest@,
        mapping.run_id == committed@,
    ensures
        ({
            let (step, after) = flow::publish(first, entries, claim, owner_id, committed, now);
            &&& agrees(after, mapping)
            &&& step.phase matches Phase::ReleasingCommitted { committed: answer, .. } && answer
                == committed
        }),
{
}

proof fn a_step_keeps_agreement(
    served: Served,
    event: Event,
    before: Entries,
    after: Entries,
    limits: Limits,
    now: u64,
    fresh_owner: u128,
    step: Step,
    live: Result<Option<ReadyModel>, Seq<char>>,
    mapping: ReadyModel,
)
    requires
        takes(served, event, before, after, limits, now, fresh_owner, step),
        agrees(before, mapping),
        served.request.key@ == mapping.key ==> (served.phase is Lookup || is_true(
            event,
            served.request,
            live,
        )) && (live matches Ok(found) ==> found == Some(mapping)) && (served.phase matches Phase::SettlingSurplus {
            committed,
            ..
        } ==> served.request.digest@ == mapping.digest && committed@ == mapping.run_id),
    ensures
        agrees(after, mapping),
        served.request.key@ == mapping.key && step.phase is SettlingSurplus
            ==> served.request.digest@ == mapping.digest && step.phase->SettlingSurplus_committed@
            == mapping.run_id,
{
    match served.phase {
        Phase::Lookup { carried } => {
            let fresh = memory::fresh_entries(before, now, limits.ttl_secs);
            if after.contains_key(mapping.key) {
                assert(after.dom().contains(mapping.key));
                assert(fresh.contains_key(mapping.key));
                assert(after[mapping.key] == before[mapping.key]);
            }
        },
        phase => {
            if served.request.key@ != mapping.key {
                laws::a_step_touches_its_own_key_only(
                    phase,
                    event,
                    served.request,
                    before,
                    limits,
                    now,
                    fresh_owner,
                    mapping.key,
                );
            }
        },
    }
}

/// Nothing that happens while the mapping lives takes it from the key, makes
/// the table disagree with it, or leads the followed request anywhere but to
/// its run.
pub proof fn every_turn_keeps_the_mapping(
    before: World,
    after: World,
    turn: Turn,
    request: KeyedRequest,
    mapping: ReadyModel,
    limits: Limits,
)
    requires
        leads(before, after, turn, request, limits),
        in_time(turn, mapping, limits.ttl_secs),
        holds(before, mapping),
        mapping.key == request.key@,
        mapping.digest == request.digest@,
    ensures
        holds(after, mapping),
{
    let key = request.key@;
    match turn {
        Turn::Store { operation, at } => {
            let history = seq![(operation, at)];
            assert(history.drop_last() == Seq::<(Operation, Option<u64>)>::empty());
            laws::a_live_mapping_outlives_every_history(
                key,
                before.files,
                mapping,
                history,
                limits.ttl_secs,
            );
            assert(laws::after_history(key, before.files, history.drop_last(), limits.ttl_secs)
                == before.files);
            assert(laws::after_history(key, before.files, history, limits.ttl_secs)
                == after.files);
        },
        Turn::Restart => {},
        Turn::Arrive { id, request: other } => {},
        Turn::Theirs { id, event, at, now, fresh_owner } => {
            let served = before.others[id];
            let step = choose|step: Step| #[trigger]
                takes(
                    served,
                    event,
                    before.entries,
                    after.entries,
                    limits,
                    now,
                    fresh_owner,
                    step,
                ) && after.others == before.others.insert(id, Served { phase: step.phase, ..served });
            a_step_keeps_agreement(
                served,
                event,
                before.entries,
                after.entries,
                limits,
                now,
                fresh_owner,
                step,
                live_mapping(key, before.files, at, limits.ttl_secs),
                mapping,
            );
        },
        Turn::Ours { event, at, now, fresh_owner } => {
            let served = Served { request, phase: before.ours.phase };
            a_step_keeps_agreement(
                served,
                event,
                before.entries,
                after.entries,
                limits,
                now,
                fresh_owner,
                after.ours,
                live_mapping(key, before.files, at, limits.ttl_secs),
                mapping,
            );
        },
    }
}

/// A keyed request that is sent again is answered with the first run. Once a
/// commit has published a mapping for the request's key and content, and as
/// long as the mapping lives, the followed request never claims, executes,
/// commits or cancels anything, and where it is answered the answer is that
/// run: whoever operates on the key's files, whatever other requests the
/// process serves, and however often it restarts. At the start the table knows
/// nothing else of the key, as after the first answer or after a restart.
pub proof fn a_repeated_request_replays_the_first_run(
    first: Commit,
    files: KeyFiles,
    at: u64,
    request: KeyedRequest,
    limits: Limits,
    worlds: Seq<World>,
    turns: Seq<Turn>,
    n: int,
)
    requires
        ({
            let plan = durable::store(first, files, Some(at), limits.ttl_secs);
            &&& plan.step matches Ok(StoreStepModel::Publish(mapping))
            &&& first.key == request.key@
            &&& first.digest == request.digest@
            &&& course(worlds, turns, request, mapping, limits)
            &&& worlds[0].files == laws::after_store(files, plan)
            &&& agrees(worlds[0].entries, mapping)
            &&& settles_for(worlds[0].others, mapping)
            &&& worlds[0].ours == flow::consult_again(None)
        }),
        0 <= n < worlds.len(),
    ensures
        replays(worlds[n].ours, first.run_id),
        worlds[n].ours.action matches Action::Finish(outcome) ==> (outcome matches Ok(run_id)
            && run_id@ == first.run_id),
        worlds[n].ours.action !is Claim,
        worlds[n].ours.action !is Execute,
        ({
            let plan = durable::store(first, files, Some(at), limits.ttl_secs);
            holds(worlds[n], plan.step->Ok_0->Publish_0)
        }),
    decreases n,
{
    let plan = durable::store(first, files, Some(at), limits.ttl_secs);
    let mapping = plan.step->Ok_0->Publish_0;
    assert(mapping.key == first.key && mapping.digest == first.digest && mapping.run_id
        == first.run_id);
    if n > 0 {
        a_repeated_request_replays_the_first_run(
            first,
            files,
            at,
            request,
            limits,
            worlds,
            turns,
            n - 1,
        );
        assert(leads(worlds[n - 1], worlds[n], turns[n - 1], request, limits));
        every_turn_keeps_the_mapping(
            worlds[n - 1],
            worlds[n],
            turns[n - 1],
            request,
            mapping,
            limits,
        );
    }
}

/// A repeated request is answered as soon as no other request for the key is
/// in progress here: from the table at once, or else from the mapping that it
/// loads.
pub proof fn a_repeated_request_is_answered(
    request: KeyedRequest,
    entries: Entries,
    carried: Option<String>,
    mapping: ReadyModel,
    event: Event,
    limits: Limits,
    now: u64,
    fresh_owner: u128,
)
    requires
        mapping.key == request.key@,
        mapping.digest == request.digest@,
        agrees(entries, mapping),
        entries.contains_key(mapping.key) ==> entries[mapping.key] is Ready,
        fits(Phase::LoadingReady { carried }, event, Ok(Some(mapping))),
    ensures
        ({
            let looked = flow::lookup(request, entries, carried);
            let loaded = flow::transition(
                looked.phase,
                event,
                request,
                entries,
                limits,
                now,
                fresh_owner,
            ).0;
            let last = if entries.contains_key(mapping.key) {
                looked
            } else {
                loaded
            };
            last.action matches Action::Finish(Ok(run_id)) && run_id@ == mapping.run_id
        }),
{
}

} // verus!
