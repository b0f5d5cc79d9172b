//! What becomes of an idempotency key, stated on its files and the seconds
//! that the server is configured with.
use vstd::prelude::*;
use crate::digest;
use crate::environment::Setting;
use crate::idempotency::config;
use crate::idempotency::durable::{ClaimRequest, ClaimStepModel, Commit, PendingReadModel};
use crate::idempotency::durable::{StoreRefusal, StoreStepModel};
use crate::idempotency::durable;
use crate::idempotency::files::{Access, Creation, OpenAttempt, OpenResult, OpenStep};
use crate::idempotency::files::{SweepAction, SweepEntry};
use crate::idempotency::files;
use crate::idempotency::flow;
use crate::idempotency::memory::IdempotencyEntry;
use crate::idempotency::memory;
use crate::idempotency::orphan::RunEntryModel;
use crate::idempotency::orphan;
use crate::idempotency::owner::OwnerCheck;
use crate::idempotency::owner;
use crate::idempotency::record::{BoundedRead, DurableIdempotencyRecord, DurablePendingRecord};
use crate::idempotency::record::{FileModel, KeyFiles, OrphanModel, PendingModel, ReadyModel};
use crate::idempotency::record::{PendingFile, ReadyFile};
use crate::text;

verus! {

/// A committed mapping lives for the configured number of seconds, to the
/// second: it is returned before that time is over and removed from then on.
pub proof fn a_mapping_lives_for_the_configured_seconds(
    key: Seq<char>,
    mapping: ReadyModel,
    now: u64,
    ttl_secs: u64,
)
    requires
        mapping.key == key,
        ttl_secs >= 1,
    ensures
        ({
            let read = durable::reaped_ready(
                key,
                FileModel::Present(mapping),
                Some(now),
                ttl_secs,
            );
            &&& read is Ok
            &&& (read->Ok_0.live == Some(mapping) <==> now - mapping.created < ttl_secs)
            &&& (read->Ok_0.live is None <==> now - mapping.created >= ttl_secs)
            &&& (read->Ok_0.remove <==> now - mapping.created >= ttl_secs)
            &&& read->Ok_0.generation == mapping.generation
        }),
{
}

/// With a lifetime of zero a mapping lives in the second that it was made in.
pub proof fn a_mapping_lives_for_one_second_at_least(key: Seq<char>, mapping: ReadyModel, now: u64)
    requires
        mapping.key == key,
    ensures
        ({
            let read = durable::reaped_ready(key, FileModel::Present(mapping), Some(now), 0);
            &&& read is Ok
            &&& (read->Ok_0.live == Some(mapping) <==> now <= mapping.created)
            &&& (read->Ok_0.remove <==> now > mapping.created)
        }),
{
}

/// A mapping file that is missing reads as no mapping; one that cannot be read,
/// is empty or damaged, belongs to another key, or cannot be dated is an error
/// and stays.
pub proof fn only_a_sound_mapping_is_read(
    key: Seq<char>,
    file: FileModel<ReadyModel>,
    now: Option<u64>,
    ttl_secs: u64,
)
    ensures
        ({
            let read = durable::reaped_ready(key, file, now, ttl_secs);
            &&& (file is Absent ==> read is Ok && read->Ok_0.live is None && !read->Ok_0.remove
                && read->Ok_0.generation == 0)
            &&& (file is Unreadable || file is Empty || file is Corrupt ==> read is Err)
            &&& (file matches FileModel::Present(mapping) ==> (mapping.key != key || now is None
                <==> read is Err))
        }),
{
}

/// A claim lives for sixty seconds: it is valid before they are over and
/// expired from then on, and a missing or empty file is no claim.
pub proof fn a_claim_lives_for_sixty_seconds(key: Seq<char>, claim: PendingModel, now: u64)
    requires
        claim.key == key,
    ensures
        durable::pending_read(key, FileModel::Present(claim), Some(now)) == (if now - claim.created
            < 60 {
            PendingReadModel::Valid(claim)
        } else {
            PendingReadModel::Expired(claim)
        }),
        durable::pending_read(key, FileModel::Absent, Some(now)) is Absent,
        durable::pending_read(key, FileModel::Empty, Some(now)) is Absent,
{
}

/// A claim file that cannot be read or is damaged, belongs to another key or
/// cannot be dated is unusable.
pub proof fn only_a_sound_claim_is_read(
    key: Seq<char>,
    file: FileModel<PendingModel>,
    now: Option<u64>,
)
    ensures
        durable::pending_read(key, file, now) is Unusable <==> file is Unreadable || file is Corrupt
            || (file matches FileModel::Present(claim) && (claim.key != key || now is None)),
{
}

/// The record that a run carries for its key lives exactly as long as the
/// mapping would: for the configured number of seconds.
pub proof fn a_run_record_lives_for_the_configured_seconds(
    name: Seq<char>,
    record: OrphanModel,
    key: Seq<char>,
    now: u64,
    ttl_secs: u64,
)
    requires
        record.key == key,
        ttl_secs >= 1,
        name.len() > 0,
        name[0] != '.',
        name != "idempotency"@,
    ensures
        orphan::live(
            RunEntryModel { name, is_dir: true, sidecar: Some(record) },
            key,
            now,
            ttl_secs,
        ) <==> now - record.created < ttl_secs,
{
}

/// A search that looks at one run that carries the key finds it before the
/// configured seconds are over and removes its record from then on.
pub proof fn a_search_finds_a_live_run(
    name: Seq<char>,
    record: OrphanModel,
    key: Seq<char>,
    now: u64,
    ttl_secs: u64,
)
    requires
        record.key == key,
        record.run_id == name,
        ttl_secs >= 1,
        name.len() > 0,
        name[0] != '.',
        name != "idempotency"@,
    ensures
        ({
            let entries = seq![RunEntryModel { name, is_dir: true, sidecar: Some(record) }];
            &&& orphan::scan(entries, key, Some(now), ttl_secs) == (if now - record.created
                < ttl_secs {
                Ok::<orphan::Found, Seq<char>>(Some((record.run_id, record.digest)))
            } else {
                Ok::<orphan::Found, Seq<char>>(None)
            })
            &&& (orphan::expired_places(entries, key, Some(now), ttl_secs).contains(0)
                <==> now - record.created >= ttl_secs)
        }),
{
    let entry = RunEntryModel { name, is_dir: true, sidecar: Some(record) };
    let entries = seq![entry];
    let none = Seq::<RunEntryModel>::empty();
    assert(entries.drop_last() =~= none);
    assert(orphan::scan(none, key, Some(now), ttl_secs) == Ok::<orphan::Found, Seq<char>>(None));
    assert(orphan::expired_places(none, key, Some(now), ttl_secs) =~= Seq::<int>::empty());
    assert(entries.last() == entry);
    if now - record.created >= ttl_secs {
        assert(orphan::expired_places(entries, key, Some(now), ttl_secs) =~= seq![0int]);
        assert(seq![0int][0] == 0);
    } else {
        assert(orphan::expired_places(entries, key, Some(now), ttl_secs) =~= Seq::<int>::empty());
    }
}

/// Only a directory that is a run's, and whose record is for the key, matters
/// to a search: the store's own directory, hidden ones, files, runs without a
/// record and runs of other keys change nothing.
pub proof fn a_search_passes_over_the_rest(
    entries: Seq<RunEntryModel>,
    entry: RunEntryModel,
    key: Seq<char>,
    now: Option<u64>,
    ttl_secs: u64,
)
    requires
        entry.name == "idempotency"@ || (entry.name.len() > 0 && entry.name[0] == '.')
            || !entry.is_dir || entry.sidecar is None || entry.sidecar->0.key != key,
    ensures
        orphan::scan(entries.push(entry), key, now, ttl_secs) == orphan::scan(
            entries,
            key,
            now,
            ttl_secs,
        ),
        orphan::expired_places(entries.push(entry), key, now, ttl_secs) == orphan::expired_places(
            entries,
            key,
            now,
            ttl_secs,
        ),
{
    assert(entries.push(entry).drop_last() =~= entries);
}

/// A run that carries a live record of the key under another name, or beside
/// another live run of the key, is damage; without a clock none can be judged.
pub proof fn a_search_reports_damage(
    entries: Seq<RunEntryModel>,
    entry: RunEntryModel,
    key: Seq<char>,
    now: Option<u64>,
    ttl_secs: u64,
)
    requires
        entry.is_dir,
        entry.sidecar is Some,
        entry.sidecar->0.key == key,
        entry.name.len() > 0,
        entry.name[0] != '.',
        entry.name != "idempotency"@,
        orphan::scan(entries, key, now, ttl_secs) is Ok,
    ensures
        ({
            let record = entry.sidecar->0;
            let before = orphan::scan(entries, key, now, ttl_secs)->Ok_0;
            let after = orphan::scan(entries.push(entry), key, now, ttl_secs);
            &&& (now is None ==> after is Err)
            &&& (now matches Some(t) ==> ttl_secs >= 1 ==> if t - record.created >= ttl_secs {
                after == Ok::<orphan::Found, Seq<char>>(before)
            } else {
                &&& (after is Err <==> record.run_id != entry.name || (before is Some && before
                    != Some((record.run_id, record.digest))))
                &&& (after is Ok ==> after->Ok_0 == Some((record.run_id, record.digest)))
            })
        }),
{
    assert(entries.push(entry).drop_last() =~= entries);
}

/// A run id can be used in a path exactly where it is not empty, holds no
/// separator and no NUL, and is none of the reserved names.
pub proof fn an_unsafe_run_id_is_refused(run_id: Seq<char>)
    ensures
        orphan::unsafe_run_id(run_id) <==> run_id.len() == 0 || run_id.contains('/')
            || run_id.contains('\\') || run_id.contains('\0') || run_id == "."@ || run_id == ".."@
            || run_id == "idempotency"@,
{
}

/// What a claim is answered follows from the two files: a live mapping answers
/// with its run or with a conflict, a live claim with waiting or a conflict,
/// and otherwise the key is taken.
pub proof fn a_claim_is_answered_by_the_files(
    request: ClaimRequest,
    mapping: ReadyModel,
    claim: PendingModel,
    now: u64,
    ttl_secs: u64,
)
    requires
        mapping.key == request.key,
        claim.key == request.key,
        ttl_secs >= 1,
    ensures
        ({
            let plan = durable::claim(
                request,
                KeyFiles {
                    ready: FileModel::Present(mapping),
                    pending: FileModel::Present(claim),
                },
                Some(now),
                ttl_secs,
            );
            &&& plan.remove_ready == (now - mapping.created >= ttl_secs)
            &&& (now - mapping.created < ttl_secs && mapping.digest == request.digest ==> plan.step
                == Ok::<ClaimStepModel, crate::error::ProblemModel>(
                ClaimStepModel::Ready(mapping.run_id),
            ))
            &&& (now - mapping.created < ttl_secs && mapping.digest != request.digest ==> plan.step
                == Ok::<ClaimStepModel, crate::error::ProblemModel>(ClaimStepModel::Conflict))
            &&& (now - mapping.created >= ttl_secs && now - claim.created < 60 && claim.digest
                == request.digest ==> plan.step == Ok::<
                ClaimStepModel,
                crate::error::ProblemModel,
            >(ClaimStepModel::Peer))
            &&& (now - mapping.created >= ttl_secs && now - claim.created < 60 && claim.digest
                != request.digest ==> plan.step == Ok::<
                ClaimStepModel,
                crate::error::ProblemModel,
            >(ClaimStepModel::Conflict))
            &&& (now - mapping.created >= ttl_secs && now - claim.created >= 60 ==> {
                &&& plan.step matches Ok(ClaimStepModel::Publish(published))
                &&& published.key == request.key
                &&& published.digest == request.digest
                &&& published.owner == request.owner
                &&& published.created == now
                &&& published.run_id == (if claim.digest == request.digest && claim.run_id is Some {
                    claim.run_id
                } else {
                    request.reserved
                })
                &&& (claim.generation < u64::MAX && mapping.generation < u64::MAX
                    ==> published.generation == (if claim.generation >= mapping.generation {
                    claim.generation + 1
                } else {
                    mapping.generation + 1
                }))
                &&& (claim.generation == u64::MAX || mapping.generation == u64::MAX
                    ==> published.generation == u64::MAX)
            })
        }),
{
}

/// The first claim on a key is published as the request's own, in the first
/// generation.
pub proof fn a_free_key_is_claimed(request: ClaimRequest, now: u64, ttl_secs: u64)
    ensures
        ({
            let plan = durable::claim(
                request,
                KeyFiles { ready: FileModel::Absent, pending: FileModel::Absent },
                Some(now),
                ttl_secs,
            );
            &&& !plan.remove_ready
            &&& plan.step matches Ok(ClaimStepModel::Publish(published))
            &&& published.key == request.key
            &&& published.digest == request.digest
            &&& published.owner == request.owner
            &&& published.created == now
            &&& published.run_id == request.reserved
            &&& published.generation == 1
        }),
{
}

/// Nothing is claimed or committed on files that cannot be trusted, nor
/// without a clock, and nothing is removed: the request fails as an internal
/// error.
pub proof fn nothing_is_decided_on_untrusted_files(
    request: ClaimRequest,
    commit: Commit,
    key_files: KeyFiles,
    now: Option<u64>,
    ttl_secs: u64,
)
    requires
        commit.key == request.key,
        key_files.ready is Unreadable || key_files.pending is Unreadable || key_files.ready is Empty
            || key_files.ready is Corrupt || (key_files.ready matches FileModel::Present(mapping)
            && (mapping.key != request.key || now is None)),
    ensures
        durable::claim(request, key_files, now, ttl_secs).step matches Err(problem)
            && problem.status == 500,
        !durable::claim(request, key_files, now, ttl_secs).remove_ready,
        durable::store(commit, key_files, now, ttl_secs).step matches Err(
            StoreRefusal::Storage(_),
        ),
        !durable::store(commit, key_files, now, ttl_secs).remove_ready,
{
}

/// A commit publishes exactly what it was asked to, and exactly where its own
/// claim is live and no mapping is: the claim has its owner, its generation,
/// its digest and its run.
pub proof fn a_commit_publishes_its_own_run(
    commit: Commit,
    mapping: Option<ReadyModel>,
    claim: PendingModel,
    now: u64,
    ttl_secs: u64,
)
    requires
        claim.key == commit.key,
        mapping is Some ==> mapping->0.key == commit.key,
        ttl_secs >= 1,
    ensures
        ({
            let plan = durable::store(
                commit,
                KeyFiles {
                    ready: match mapping {
                        Some(mapping) => FileModel::Present(mapping),
                        None => FileModel::Absent,
                    },
                    pending: FileModel::Present(claim),
                },
                Some(now),
                ttl_secs,
            );
            let lives = mapping is Some && now - mapping->0.created < ttl_secs;
            let ours = now - claim.created < 60 && claim.owner == commit.owner && claim.generation
                == commit.generation && claim.digest == commit.digest && claim.run_id == Some(
                commit.run_id,
            );
            &&& plan.remove_ready == (mapping is Some && !lives)
            &&& (plan.step matches Ok(StoreStepModel::Publish(_)) <==> ours && !lives)
            &&& (plan.step matches Ok(StoreStepModel::Publish(published)) ==> published.key
                == commit.key && published.digest == commit.digest && published.run_id
                == commit.run_id && published.created == now && published.generation
                == commit.generation)
            &&& (plan.step matches Ok(StoreStepModel::Converged(_)) <==> ours && lives
                && mapping->0.digest == commit.digest)
            &&& (plan.step matches Ok(StoreStepModel::Converged(run_id)) ==> run_id
                == mapping->0.run_id)
            &&& (plan.step == Err::<StoreStepModel, StoreRefusal>(StoreRefusal::DigestConflict)
                <==> lives && mapping->0.digest != commit.digest)
        }),
{
}

/// Without a claim nothing is published: a commit converges onto the live
/// mapping of its own content, and fails otherwise.
pub proof fn a_commit_without_a_claim_only_converges(
    commit: Commit,
    mapping: ReadyModel,
    now: u64,
    ttl_secs: u64,
)
    requires
        mapping.key == commit.key,
        ttl_secs >= 1,
    ensures
        ({
            let step = durable::store(
                commit,
                KeyFiles { ready: FileModel::Present(mapping), pending: FileModel::Absent },
                Some(now),
                ttl_secs,
            ).step;
            let lives = now - mapping.created < ttl_secs;
            &&& (lives && mapping.digest == commit.digest ==> step == Ok::<
                StoreStepModel,
                StoreRefusal,
            >(StoreStepModel::Converged(mapping.run_id)))
            &&& (lives && mapping.digest != commit.digest ==> step == Err::<
                StoreStepModel,
                StoreRefusal,
            >(StoreRefusal::DigestConflict))
            &&& (!lives ==> step matches Err(StoreRefusal::Storage(_)))
        }),
        durable::store(
            commit,
            KeyFiles { ready: FileModel::Absent, pending: FileModel::Absent },
            Some(now),
            ttl_secs,
        ).step matches Err(StoreRefusal::Storage(_)),
{
}

/// A release removes exactly the claim of its own owner and generation, expired
/// or not; a missing claim is released already, and a damaged or foreign one
/// is an error.
pub proof fn a_release_removes_its_own_claim(
    key: Seq<char>,
    owner: Seq<char>,
    generation: u64,
    file: FileModel<PendingModel>,
)
    ensures
        owner::release(key, owner, generation, file) == Ok::<bool, Seq<char>>(true) <==> (file
            matches FileModel::Present(claim) && claim.key == key && claim.owner == owner
            && claim.generation == generation),
        owner::release(key, owner, generation, file) is Err <==> file is Unreadable
            || file is Corrupt || (file matches FileModel::Present(claim) && claim.key != key),
{
}

/// A claim is still its owner's exactly where it is less than sixty seconds old
/// and has the owner, the generation and the digest.
pub proof fn an_owner_is_current_within_sixty_seconds(
    key: Seq<char>,
    owner: Seq<char>,
    generation: u64,
    digest: Seq<char>,
    claim: PendingModel,
    now: u64,
)
    requires
        claim.key == key,
    ensures
        owner::owner_check(
            key,
            owner,
            generation,
            digest,
            FileModel::Present(claim),
            Some(now),
        ) == Ok::<OwnerCheck, Seq<char>>(
            if now - claim.created < 60 && claim.owner == owner && claim.generation == generation
                && claim.digest == digest {
                OwnerCheck::Current
            } else {
                OwnerCheck::Superseded
            },
        ),
        owner::owner_check(key, owner, generation, digest, FileModel::Absent, Some(now)) == Ok::<
            OwnerCheck,
            Seq<char>,
        >(OwnerCheck::Absent),
{
}

/// A waiter is answered by a live mapping, waits for a live claim of the same
/// content until the deadline, gives up on one of other content, and claims
/// anew where the claim is gone or has expired, with the run that it left.
pub proof fn a_waiter_follows_the_claim(
    digest: Seq<char>,
    claim: PendingModel,
    deadline_passed: bool,
    detail: Seq<char>,
)
    ensures
        owner::wait_step(digest, Ok(None), PendingReadModel::Valid(claim), deadline_passed) == (
        if claim.digest != digest {
            owner::WaitStepModel::Finish(
                Err::<owner::WaitModel, crate::error::ProblemModel>(
                    crate::error::conflict_problem(
                        "Idempotency-Key was already used with a different request"@,
                    ),
                ),
            )
        } else if deadline_passed {
            owner::WaitStepModel::Recheck(owner::AfterRecheckModel::TimedOut)
        } else {
            owner::WaitStepModel::Sleep
        }),
        claim.digest == digest ==> owner::wait_step(
            digest,
            Ok(None),
            PendingReadModel::Expired(claim),
            deadline_passed,
        ) == owner::WaitStepModel::Recheck(owner::AfterRecheckModel::Retry(claim.run_id)),
        claim.digest != digest ==> owner::wait_step(
            digest,
            Ok(None),
            PendingReadModel::Expired(claim),
            deadline_passed,
        ) == owner::WaitStepModel::Finish(
            Err::<owner::WaitModel, crate::error::ProblemModel>(
                crate::error::conflict_problem(
                    "Idempotency-Key was already used with a different request"@,
                ),
            ),
        ),
        owner::wait_step(digest, Ok(None), PendingReadModel::Absent, deadline_passed)
            == owner::WaitStepModel::Recheck(owner::AfterRecheckModel::Retry(None)),
        owner::wait_step(digest, Ok(None), PendingReadModel::Unusable(detail), deadline_passed)
            matches owner::WaitStepModel::Finish(Err(problem)) && problem.status == 500,
        owner::wait_step(digest, Err(detail), PendingReadModel::Absent, deadline_passed)
            matches owner::WaitStepModel::Finish(Err(problem)) && problem.status == 500,
        owner::recheck_result(digest, owner::AfterRecheckModel::TimedOut, Ok(None)) matches Err(
            problem,
        ) && problem.status == 503,
        owner::recheck_result(digest, owner::AfterRecheckModel::Retry(claim.run_id), Ok(None))
            == Ok::<owner::WaitModel, crate::error::ProblemModel>(
            owner::WaitModel::RetryClaim(claim.run_id),
        ),
{
}

/// An entry of the table is kept for the configured number of seconds, counted
/// in nanoseconds, and an entry from the future is as good as new.
pub proof fn an_entry_lives_for_the_configured_seconds(
    table: Map<Seq<char>, IdempotencyEntry>,
    key: Seq<char>,
    now: u64,
    ttl_secs: u64,
)
    requires
        table.contains_key(key),
        ttl_secs >= 1,
    ensures
        ({
            let made = match table[key] {
                IdempotencyEntry::Pending { created_at, .. } => created_at,
                IdempotencyEntry::Ready { created_at, .. } => created_at,
            };
            &&& (memory::fresh_entries(table, now, ttl_secs).contains_key(key) <==> now - made
                < ttl_secs * 1_000_000_000)
            &&& (memory::fresh_entries(table, now, ttl_secs).contains_key(key)
                ==> memory::fresh_entries(table, now, ttl_secs)[key] == table[key])
        }),
{
}

/// Pruning drops every entry whose time is over and no other one for want of
/// time; for want of room it drops known runs only, the oldest first, and not
/// one more than the table has to lose to take another entry.
pub proof fn pruning_drops_the_oldest_runs(
    before: Map<Seq<char>, IdempotencyEntry>,
    after: Map<Seq<char>, IdempotencyEntry>,
    now: u64,
    ttl_secs: u64,
    max_entries: nat,
    gone: Seq<char>,
    kept: Seq<char>,
)
    requires
        memory::pruned(before, after, now, ttl_secs, max_entries),
        ttl_secs >= 1,
    ensures
        after.contains_key(kept) ==> before.contains_key(kept) && after[kept] == before[kept]
            && now - after[kept].created() < ttl_secs * 1_000_000_000,
        before.contains_key(gone) && !after.contains_key(gone) && now - before[gone].created()
            < ttl_secs * 1_000_000_000 ==> before[gone] is Ready && after.len() + 1 >= max_entries,
        before.contains_key(gone) && !after.contains_key(gone) && now - before[gone].created()
            < ttl_secs * 1_000_000_000 && after.contains_key(kept) && after[kept] is Ready
            ==> before[gone].created() <= after[kept].created(),
        after.contains_key(kept) && after[kept] is Ready ==> after.len() < max_entries,
{
    let fresh = memory::fresh_entries(before, now, ttl_secs);
    if after.contains_key(kept) {
        assert(after.dom().contains(kept));
        assert(fresh.contains_key(kept));
        assert(fresh[kept] == after[kept]);
    }
    if before.contains_key(gone) && !after.contains_key(gone) && now - before[gone].created()
        < ttl_secs * 1_000_000_000 {
        assert(fresh.contains_key(gone));
        assert(after != fresh);
    }
}

/// What a request is recognised by: two requests are told apart where their
/// scopes, targets or bodies differ, for scopes and targets without a NUL.
pub proof fn a_digest_covers_the_whole_request(
    scope: Seq<u8>,
    target: Seq<u8>,
    body: Seq<u8>,
    other_scope: Seq<u8>,
    other_target: Seq<u8>,
    other_body: Seq<u8>,
)
    requires
        !scope.contains(0u8),
        !target.contains(0u8),
        !other_scope.contains(0u8),
        !other_target.contains(0u8),
        flow::digest_input(scope, target, body) == flow::digest_input(
            other_scope,
            other_target,
            other_body,
        ),
    ensures
        scope == other_scope,
        target == other_target,
        body == other_body,
{
    let a = flow::digest_input(scope, target, body);
    let b = flow::digest_input(other_scope, other_target, other_body);
    a_prefix_ends_at_the_nul(scope, target + seq![0u8] + body, other_scope, other_target + seq![0u8]
        + other_body, a, b);
    let (c, d) = (a.skip(scope.len() as int + 1), b.skip(scope.len() as int + 1));
    assert(c =~= target + seq![0u8] + body);
    assert(d =~= other_target + seq![0u8] + other_body);
    a_prefix_ends_at_the_nul(target, body, other_target, other_body, c, d);
    assert(c.skip(target.len() as int + 1) =~= body);
    assert(d.skip(target.len() as int + 1) =~= other_body);
}

proof fn a_prefix_ends_at_the_nul(
    x: Seq<u8>,
    rest: Seq<u8>,
    y: Seq<u8>,
    other_rest: Seq<u8>,
    a: Seq<u8>,
    b: Seq<u8>,
)
    requires
        !x.contains(0u8),
        !y.contains(0u8),
        a == b,
        a =~= x + seq![0u8] + rest,
        b =~= y + seq![0u8] + other_rest,
    ensures
        x == y,
{
    assert(a[x.len() as int] == 0u8);
    assert(b[y.len() as int] == 0u8);
    if x.len() < y.len() {
        assert(b[x.len() as int] == y[x.len() as int]);
        assert(y.contains(y[x.len() as int]));
    }
    if y.len() < x.len() {
        assert(a[y.len() as int] == x[y.len() as int]);
        assert(x.contains(x[y.len() as int]));
    }
    assert forall|i: int| 0 <= i < x.len() implies x[i] == y[i] by {
        assert(a[i] == x[i] && b[i] == y[i]);
    }
    assert(x =~= y);
}

/// The digest covers the scope first, the target next and the body last.
pub proof fn a_digest_is_taken_in_order(scope: Seq<u8>, target: Seq<u8>, body: Seq<u8>)
    ensures
        scope.is_prefix_of(flow::digest_input(scope, target, body)),
        body.is_suffix_of(flow::digest_input(scope, target, body)),
        flow::digest_input(scope, target, body).len() == scope.len() + target.len() + body.len() + 2,
        flow::digest_input(scope, target, body).subrange(
            scope.len() as int + 1,
            scope.len() as int + 1 + target.len() as int,
        ) == target,
{
    let whole = flow::digest_input(scope, target, body);
    assert(whole.subrange(0, scope.len() as int) =~= scope);
    assert(whole.subrange(whole.len() - body.len(), whole.len() as int) =~= body);
    assert(whole.subrange(
        scope.len() as int + 1,
        scope.len() as int + 1 + target.len() as int,
    ) =~= target);
}

/// Starting and forking a run are the requests that create one.
pub proof fn two_scopes_create_a_run(scope: Seq<char>)
    ensures
        flow::creates_run(scope) <==> scope == "start_run"@ || scope == "fork_run"@,
{
}

/// A key is the header's text between its blank ends, and a blank header is no
/// key.
pub proof fn a_key_is_its_trimmed_header(bytes: Seq<u8>, i: int)
    ensures
        flow::sent_key(None) is None,
        (forall|j: int| 0 <= j < bytes.len() ==> #[trigger] bytes[j] == 32 || bytes[j] == 9)
            ==> flow::sent_key(Some(bytes)) is None,
        bytes.len() > 0 && 33 <= bytes[0] < 127 && 33 <= bytes[bytes.len() - 1] < 127 ==> (
        flow::sent_key(Some(bytes)) matches Some(key) && key == bytes.map_values(
            |b: u8| b as char,
        )),
{
    let chars = crate::header::ascii_text(bytes);
    assert(chars == bytes.map_values(|b: u8| b as char));
    super::texts::trimming_takes_blanks_off_the_ends(chars);
    let (a, b) = choose|a: int, b: int| #[trigger]
        super::texts::is_core(chars, a, b) && text::trimmed(chars) == chars.subrange(a, b);
    if forall|j: int| 0 <= j < bytes.len() ==> #[trigger] bytes[j] == 32 || bytes[j] == 9 {
        if a < b {
            assert(chars[a] == bytes[a] as char);
            assert(super::texts::blank(chars[a]));
        }
    }
    if bytes.len() > 0 && 33 <= bytes[0] < 127 && 33 <= bytes[bytes.len() - 1] < 127 {
        let last = bytes.len() - 1;
        assert(chars[0] == bytes[0] as char);
        assert(chars[last] == bytes[last] as char);
        assert(!super::texts::blank(chars[0]));
        assert(!super::texts::blank(chars[last]));
        assert(a == 0);
        assert(b == chars.len());
        assert(chars.subrange(a, b) =~= chars);
    }
}

/// A lifetime or a capacity is a positive number, or its default where it is
/// not set; anything else is refused.
pub proof fn a_positive_setting_is_taken(name: Seq<char>, n: nat, default: nat, max: nat)
    ensures
        config::positive_knob(name, Setting::Unset, default, max) == Ok::<nat, Seq<char>>(default),
        config::positive_knob(name, Setting::NotText, default, max) is Err,
        0 < n <= max ==> config::positive_knob(
            name,
            Setting::Text(text::decimal(n)),
            default,
            max,
        ) == Ok::<nat, Seq<char>>(n),
        n == 0 || n > max ==> config::positive_knob(
            name,
            Setting::Text(text::decimal(n)),
            default,
            max,
        ) is Err,
{
    super::texts::numbers_are_read_back(n, max, Seq::empty());
}

/// An abandoned staging file is removed once it is sixty seconds old, a staging
/// link at once, and nothing else is ever removed.
pub proof fn a_sweep_removes_old_staging_files(
    before: Seq<char>,
    after: Seq<char>,
    name: Seq<char>,
    entry: SweepEntry,
    now: u64,
)
    ensures
        name == before + ".tmp-"@ + after ==> match entry {
            SweepEntry::Unreadable(_) => files::sweep_action(name, entry, now) is Report,
            SweepEntry::Link => files::sweep_action(name, entry, now) is Remove,
            SweepEntry::Other { modified: None } => files::sweep_action(name, entry, now) is Keep,
            SweepEntry::Other { modified: Some(at) } => files::sweep_action(name, entry, now) == (
            if now - at >= 60 {
                SweepAction::Remove
            } else {
                SweepAction::Keep
            }),
        },
        files::sweep_action(name, entry, now) !is Keep ==> exists|x: Seq<char>, y: Seq<char>|
            name == #[trigger] (x + ".tmp-"@ + y),
{
    super::texts::occurring_is_standing_between(name, ".tmp-"@, before, after);
}

/// A directory is swept once in sixty seconds.
pub proof fn a_sweep_comes_once_in_sixty_seconds(
    clock: Map<Seq<char>, u64>,
    dir: Seq<char>,
    at: u64,
    now: u64,
)
    ensures
        !clock.contains_key(dir) ==> files::sweep_due(clock, dir, now),
        at > 0 ==> (files::sweep_due(clock.insert(dir, at), dir, now) <==> now - at >= 60),
{
}

/// A staging name is the name up to its last dot, with a mark and the id
/// behind it; a hidden name, or one without a dot, is taken whole.
pub proof fn a_staging_name_replaces_the_extension(stem: Seq<char>, ext: Seq<char>, id: Seq<char>)
    requires
        !ext.contains('.'),
    ensures
        stem.len() > 0 ==> files::staging_text(stem + seq!['.'] + ext, id) == stem + ".tmp-"@ + id,
        files::staging_text(ext, id) == ext + ".tmp-"@ + id,
        files::staging_text(seq!['.'] + ext, id) == seq!['.'] + ext + ".tmp-"@ + id,
{
    let name = stem + seq!['.'] + ext;
    the_tail_is_the_extension(stem, ext);
    the_tail_is_the_extension(Seq::empty(), ext);
    assert(Seq::<char>::empty() + seq!['.'] + ext =~= seq!['.'] + ext);
    super::texts::the_tail_follows_the_last_separator(ext, '.');
    let tail = text::after_last(ext, '.');
    if tail.len() < ext.len() {
        assert(ext.contains(ext[ext.len() - tail.len() - 1]));
    }
    assert(name.take(stem.len() as int) =~= stem);
}

/// What follows the last dot is the extension.
pub proof fn the_tail_is_the_extension(stem: Seq<char>, ext: Seq<char>)
    requires
        !ext.contains('.'),
    ensures
        text::after_last(stem + seq!['.'] + ext, '.') == ext,
{
    let name = stem + seq!['.'] + ext;
    super::texts::the_tail_follows_the_last_separator(name, '.');
    let tail = text::after_last(name, '.');
    let dot = stem.len() as int;
    assert(name[dot] == '.');
    if tail.len() > ext.len() {
        let at = dot - (name.len() - tail.len());
        assert(name.skip(name.len() - tail.len())[at] == name[dot]);
        assert(tail[at] == '.');
    }
    if tail.len() < ext.len() {
        let at = name.len() - tail.len() - 1;
        assert(name[at] == ext[at - dot - 1]);
        assert(ext.contains(ext[at - dot - 1]));
    }
    assert(name.skip(name.len() - tail.len()) =~= ext);
}

/// An opened file can be read where reading was asked for and written where
/// writing was, and is created exactly as was asked; links are not followed and
/// opening does not wait.
pub proof fn a_file_is_opened_as_asked(read: bool, write: bool, create: bool, create_new: bool)
    ensures
        read && write ==> files::open_access(read, write) == Access::ReadWrite,
        read && !write ==> files::open_access(read, write) == Access::Read,
        !read && write ==> files::open_access(read, write) == Access::Write,
        create_new ==> files::open_creation(create, create_new) == Creation::Exclusive,
        !create_new && create ==> files::open_creation(create, create_new) == Creation::IfMissing,
        !create_new && !create ==> files::open_creation(create, create_new) == Creation::Existing,
{
}

/// A plan to open a file keeps the directory and the name that were given, and
/// neither follows links nor waits.
pub proof fn a_planned_file_is_the_one_that_was_given(
    path: Seq<char>,
    parent: Option<String>,
    file_name: Option<String>,
    read: bool,
    write: bool,
    create: bool,
    create_new: bool,
    plan: files::OpenPlan,
)
    requires
        files::open_planned(
            path,
            parent,
            file_name,
            (read, write),
            (create, create_new),
            Ok(plan),
        ),
    ensures
        parent == Some(plan.parent),
        file_name == Some(plan.file_name),
        !plan.follow_links,
        !plan.may_wait,
        read && !write ==> plan.access == Access::Read,
        write && !read ==> plan.access == Access::Write,
        read && write ==> plan.access == Access::ReadWrite,
        create_new ==> plan.creation == Creation::Exclusive,
        !create_new && create ==> plan.creation == Creation::IfMissing,
        !create_new && !create ==> plan.creation == Creation::Existing,
{
}

/// A path is refused exactly where neither reading nor writing is asked for,
/// where it has no parent or no name, where the name is a directory's, or
/// where it holds a NUL.
pub proof fn an_unsafe_path_is_refused(
    path: Seq<char>,
    parent: Option<Seq<char>>,
    file_name: Option<Seq<char>>,
    read: bool,
    write: bool,
)
    ensures
        files::open_refusal(path, parent, file_name, read, write) is None <==> (read || write)
            && parent is Some && file_name is Some && file_name->0.len() > 0 && file_name->0
            != "."@ && file_name->0 != ".."@ && !parent->0.contains('\0')
            && !file_name->0.contains('\0'),
{
}

/// A file that comes and goes is tried for eight rounds, in each first as a new
/// file and, where it is there, as an existing one.
pub proof fn a_vanishing_file_is_tried_again(attempt: OpenAttempt, round: u32)
    ensures
        files::open_step(attempt, round, OpenResult::Opened) is Done,
        files::open_step(attempt, round, OpenResult::Failed) is Fail,
        files::open_step(OpenAttempt::CreateExclusively, round, OpenResult::AlreadyExists)
            == (OpenStep::Try { attempt: OpenAttempt::OpenExisting, round }),
        files::open_step(OpenAttempt::OpenExisting, round, OpenResult::AlreadyExists) is Fail,
        round < 7 ==> files::open_step(attempt, round, OpenResult::NotFound) == (OpenStep::Try {
            attempt: OpenAttempt::CreateExclusively,
            round: (round + 1) as u32,
        }),
        round >= 7 ==> files::open_step(attempt, round, OpenResult::NotFound) is Fail,
{
}

/// A name that is taken is tried again, three times in all; anything that was
/// staged is published, and any other failure ends the attempt.
pub proof fn a_taken_staging_name_is_tried_again(attempts: u32)
    ensures
        files::staging_step(attempts, files::StageResult::Staged) is Publish,
        files::staging_step(attempts, files::StageResult::Failed) is Fail,
        attempts < 3 ==> files::staging_step(attempts, files::StageResult::Collided) == (
        files::StageStep::Retry { attempts: (attempts + 1) as u32 }),
        attempts >= 3 ==> files::staging_step(attempts, files::StageResult::Collided) is Refuse,
{
}

/// A file holds what its bytes parse to; a missing or unreadable file stays
/// one, and a mapping file without bytes is a write in progress.
pub proof fn a_file_holds_what_it_parses_to(
    bytes: Vec<u8>,
    error: String,
    mapping: Result<DurableIdempotencyRecord, String>,
    claim: Result<DurablePendingRecord, String>,
)
    ensures
        files::mapping_held(BoundedRead::Absent, mapping) is Absent,
        files::mapping_held(BoundedRead::Unreadable(error), mapping) == ReadyFile::Unreadable(
            error,
        ),
        bytes@.len() == 0 ==> files::mapping_held(BoundedRead::Present(bytes), mapping) is Empty,
        bytes@.len() > 0 ==> match mapping {
            Ok(record) => files::mapping_held(BoundedRead::Present(bytes), mapping)
                == ReadyFile::Present(record),
            Err(detail) => files::mapping_held(BoundedRead::Present(bytes), mapping)
                == ReadyFile::Corrupt(detail),
        },
        files::claim_held(BoundedRead::Absent, claim) is Absent,
        files::claim_held(BoundedRead::Unreadable(error), claim) == PendingFile::Unreadable(error),
        match claim {
            Ok(record) => files::claim_held(BoundedRead::Present(bytes), claim)
                == PendingFile::Present(record),
            Err(detail) => files::claim_held(BoundedRead::Present(bytes), claim)
                == PendingFile::Corrupt(detail),
        },
{
}

/// The files of a key are named by its digest, apart from each other, and two
/// keys share a file only where they share the digest.
pub proof fn the_files_of_a_key_are_named_by_its_digest(key: Seq<u8>, other: Seq<u8>)
    ensures
        files::ready_name(key) == digest::hex_text(digest::sha256(key)) + ".json"@,
        files::pending_name(key) == digest::hex_text(digest::sha256(key)) + ".pending.json"@,
        files::ready_name(key) == files::ready_name(other) <==> digest::sha256(key)
            == digest::sha256(other),
        files::pending_name(key) == files::pending_name(other) <==> digest::sha256(key)
            == digest::sha256(other),
{
    let (a, b) = (digest::sha256(key), digest::sha256(other));
    let (x, y) = (digest::hex_text(a), digest::hex_text(b));
    if x + ".json"@ == y + ".json"@ || x + ".pending.json"@ == y + ".pending.json"@ {
        if x + ".json"@ == y + ".json"@ {
            assert((x + ".json"@).len() == (y + ".json"@).len());
            assert((x + ".json"@).take(x.len() as int) =~= x);
            assert((y + ".json"@).take(x.len() as int) =~= y);
        } else {
            assert((x + ".pending.json"@).len() == (y + ".pending.json"@).len());
            assert((x + ".pending.json"@).take(x.len() as int) =~= x);
            assert((y + ".pending.json"@).take(x.len() as int) =~= y);
        }
        digest::hex_text_is_injective(a, b);
    }
}

} // verus!
