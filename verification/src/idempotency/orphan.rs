//! Run-side records: each run that was started under a key keeps a record of
//! that key, so that the loss of the committed mapping still leads a retry to
//! the original run.
use vstd::prelude::*;
use vstd::string::*;
use crate::text;
use super::durable;
use super::durable::MAX_IDEMPOTENCY_FILE_BYTES;
use super::record::{OrphanIdempotencyRecord, OrphanModel};

verus! {

/// A run id that could lead outside its own run directory.
pub open spec fn unsafe_run_id(run_id: Seq<char>) -> bool {
    run_id.len() == 0 || run_id.contains('/') || run_id.contains('\\') || run_id.contains('\0')
        || run_id == "."@ || run_id == ".."@ || run_id == "idempotency"@
}

pub fn is_unsafe_run_id(run_id: &str) -> (r: bool)
    ensures
        r == unsafe_run_id(run_id@),
{
    run_id.is_empty() || text::has_char(run_id, '/') || text::has_char(run_id, '\\')
        || text::has_char(run_id, '\0') || text::same_text(run_id, ".") || text::same_text(
        run_id,
        "..",
    ) || text::same_text(run_id, "idempotency")
}

/// The record that is written into a run's directory; an unsafe run id and an
/// unreadable clock refuse it.
pub fn write_orphan_record(run_id: &str, key: &str, digest: &str, now: Option<u64>) -> (r: Result<
    OrphanIdempotencyRecord,
    String,
>)
    ensures
        match r {
            Ok(record) => !unsafe_run_id(run_id@) && now is Some && record@ == (OrphanModel {
                key: key@,
                digest: digest@,
                run_id: run_id@,
                created: now->0,
            }),
            Err(detail) => if unsafe_run_id(run_id@) {
                detail@ == "refusing to write orphan record for unsafe run id `"@ + run_id@ + "`"@
            } else {
                now is None && detail@ == durable::clock_error()
            },
        },
{
    if is_unsafe_run_id(run_id) {
        let mut detail = "refusing to write orphan record for unsafe run id `".to_owned();
        detail.append(run_id);
        detail.append("`");
        return Err(detail);
    }
    match now {
        None => Err(
            "system clock is before the Unix epoch; refusing idempotency decision".to_owned(),
        ),
        Some(created_at_unix) => Ok(
            OrphanIdempotencyRecord {
                key: key.to_owned(),
                digest: digest.to_owned(),
                run_id: run_id.to_owned(),
                created_at_unix,
            },
        ),
    }
}

/// A serialised record must stay within the bound that readers apply.
pub fn check_orphan_size(len: u64) -> (r: Result<(), String>)
    ensures
        r is Ok == (len <= MAX_IDEMPOTENCY_FILE_BYTES),
        r matches Err(detail) ==> detail@ == "orphan record exceeds size bound"@,
{
    if len > MAX_IDEMPOTENCY_FILE_BYTES {
        Err("orphan record exceeds size bound".to_owned())
    } else {
        Ok(())
    }
}

/// One entry of the runs directory.
#[derive(Debug)]
pub struct RunEntry {
    pub name: String,
    pub is_dir: bool,
    /// The run's record; absent, unreadable and corrupt records are `None`.
    pub sidecar: Option<OrphanIdempotencyRecord>,
}

pub struct RunEntryModel {
    pub name: Seq<char>,
    pub is_dir: bool,
    pub sidecar: Option<OrphanModel>,
}

impl View for RunEntry {
    type V = RunEntryModel;

    open spec fn view(&self) -> RunEntryModel {
        RunEntryModel {
            name: self.name@,
            is_dir: self.is_dir,
            sidecar: match self.sidecar {
                Some(record) => Some(record@),
                None => None,
            },
        }
    }
}

/// A directory entry that can be a run.
pub open spec fn candidate(name: Seq<char>) -> bool {
    name != "idempotency"@ && !(name.len() > 0 && name[0] == '.')
}

/// Whether an entry of the runs directory is looked into.
pub fn is_candidate(name: &str) -> (r: bool)
    ensures
        r == candidate(name@),
{
    let chars = text::chars_of(name);
    !text::same_text(name, "idempotency") && !(chars.len() > 0 && chars[0] == '.')
}

/// The entry carries a record for the key.
pub open spec fn relevant(entry: RunEntryModel, key: Seq<char>) -> bool {
    candidate(entry.name) && entry.is_dir && entry.sidecar is Some && entry.sidecar->0.key == key
}

/// The entry carries a record for the key that has not expired.
pub open spec fn live(entry: RunEntryModel, key: Seq<char>, now: u64, ttl_secs: u64) -> bool {
    relevant(entry, key) && !durable::expired(
        now,
        entry.sidecar->0.created,
        durable::ready_ttl(ttl_secs),
    )
}

/// The run and the digest that were found so far.
pub type Found = Option<(Seq<char>, Seq<char>)>;

/// What looking into one entry makes of what was found so far.
pub open spec fn visit(
    found: Found,
    entry: RunEntryModel,
    key: Seq<char>,
    now: Option<u64>,
    ttl_secs: u64,
) -> Result<Found, Seq<char>> {
    if !relevant(entry, key) {
        Ok(found)
    } else if now is None {
        Err(durable::clock_error())
    } else if !live(entry, key, now->0, ttl_secs) {
        Ok(found)
    } else {
        let record = entry.sidecar->0;
        if record.run_id != entry.name {
            Err(
                "orphan record for key `"@ + key + "` names `"@ + record.run_id
                    + "` but lives in `"@ + entry.name + "`"@,
            )
        } else {
            match found {
                None => Ok(Some((record.run_id, record.digest))),
                Some((run_id, digest)) => if run_id != record.run_id || digest != record.digest {
                    Err(
                        "duplicate orphan records for key `"@ + key + "`: (`"@ + run_id
                            + "`, digest `"@ + digest + "`) vs (`"@ + record.run_id
                            + "`, digest `"@ + record.digest + "`)"@,
                    )
                } else {
                    Ok(found)
                },
            }
        }
    }
}

/// The first entries of the directory, looked into in order.
pub open spec fn scan(
    entries: Seq<RunEntryModel>,
    key: Seq<char>,
    now: Option<u64>,
    ttl_secs: u64,
) -> Result<Found, Seq<char>>
    decreases entries.len(),
{
    if entries.len() == 0 {
        Ok(None)
    } else {
        match scan(entries.drop_last(), key, now, ttl_secs) {
            Err(detail) => Err(detail),
            Ok(found) => visit(found, entries.last(), key, now, ttl_secs),
        }
    }
}

/// The places of the entries whose record for the key has expired, up to where
/// the search stops.
pub open spec fn expired_places(
    entries: Seq<RunEntryModel>,
    key: Seq<char>,
    now: Option<u64>,
    ttl_secs: u64,
) -> Seq<int>
    decreases entries.len(),
{
    if entries.len() == 0 {
        Seq::empty()
    } else {
        let earlier = expired_places(entries.drop_last(), key, now, ttl_secs);
        if scan(entries.drop_last(), key, now, ttl_secs) is Ok && relevant(entries.last(), key)
            && now is Some && !live(entries.last(), key, now->0, ttl_secs) {
            earlier.push(entries.len() - 1)
        } else {
            earlier
        }
    }
}

/// Places in a list, as numbers.
pub open spec fn places(indices: Seq<usize>) -> Seq<int> {
    indices.map_values(|i: usize| i as int)
}

pub open spec fn entry_models(entries: Seq<RunEntry>) -> Seq<RunEntryModel> {
    entries.map_values(|e: RunEntry| e@)
}

/// What a search of the runs directory came to.
#[derive(Debug)]
pub struct OrphanSearch {
    /// The entries whose record has expired and is to be removed.
    pub expired: Vec<usize>,
    pub found: Result<Option<(String, String)>, String>,
}

pub open spec fn found_model(found: Option<(String, String)>) -> Found {
    match found {
        Some((run_id, digest)) => Some((run_id@, digest@)),
        None => None,
    }
}

/// The search stopped at its first error, or went through.
pub open spec fn searched(
    entries: Seq<RunEntryModel>,
    found: Result<Option<(String, String)>, String>,
    key: Seq<char>,
    now: Option<u64>,
    ttl_secs: u64,
) -> bool {
    scan(entries, key, now, ttl_secs) == match found {
        Ok(found) => Ok::<_, Seq<char>>(found_model(found)),
        Err(detail) => Err::<Found, _>(detail@),
    }
}

proof fn scan_error_is_final(
    entries: Seq<RunEntryModel>,
    n: int,
    key: Seq<char>,
    now: Option<u64>,
    ttl_secs: u64,
)
    requires
        0 <= n <= entries.len(),
        scan(entries.take(n), key, now, ttl_secs) is Err,
    ensures
        scan(entries, key, now, ttl_secs) == scan(entries.take(n), key, now, ttl_secs),
        expired_places(entries, key, now, ttl_secs) == expired_places(
            entries.take(n),
            key,
            now,
            ttl_secs,
        ),
    decreases entries.len() - n,
{
    if n < entries.len() {
        assert(entries.take(n + 1).drop_last() == entries.take(n));
        scan_error_is_final(entries, n + 1, key, now, ttl_secs);
    } else {
        assert(entries.take(n) == entries);
    }
}

fn mismatch_detail(key: &str, run_id: &str, name: &str) -> (r: String)
    ensures
        r@ == "orphan record for key `"@ + key@ + "` names `"@ + run_id@ + "` but lives in `"@
            + name@ + "`"@,
{
    let mut detail = "orphan record for key `".to_owned();
    detail.append(key);
    detail.append("` names `");
    detail.append(run_id);
    detail.append("` but lives in `");
    detail.append(name);
    detail.append("`");
    detail
}

fn duplicate_detail(key: &str, first: &(String, String), record: &OrphanIdempotencyRecord) -> (r:
    String)
    ensures
        r@ == "duplicate orphan records for key `"@ + key@ + "`: (`"@ + first.0@ + "`, digest `"@
            + first.1@ + "`) vs (`"@ + record.run_id@ + "`, digest `"@ + record.digest@ + "`)"@,
{
    let mut detail = "duplicate orphan records for key `".to_owned();
    detail.append(key);
    detail.append("`: (`");
    detail.append(first.0.as_str());
    detail.append("`, digest `");
    detail.append(first.1.as_str());
    detail.append("`) vs (`");
    detail.append(record.run_id.as_str());
    detail.append("`, digest `");
    detail.append(record.digest.as_str());
    detail.append("`)");
    detail
}

/// Finds the original run of a key in the run-side records. A record that does
/// not name its own directory, and records that contradict each other, are
/// damage; expired ones never pin the key.
pub fn find_orphan_run(
    entries: &Vec<RunEntry>,
    key: &str,
    now: Option<u64>,
    ttl_secs: u64,
) -> (r: OrphanSearch)
    ensures
        searched(entry_models(entries@), r.found, key@, now, ttl_secs),
        places(r.expired@) == expired_places(entry_models(entries@), key@, now, ttl_secs),
{
    let ghost models = entry_models(entries@);
    let mut found: Option<(String, String)> = None;
    let mut expired: Vec<usize> = Vec::new();
    let mut i: usize = 0;
    assert(models.take(0) == Seq::<RunEntryModel>::empty());
    while i < entries.len()
        invariant
            i <= entries@.len(),
            models == entry_models(entries@),
            scan(models.take(i as int), key@, now, ttl_secs) == Ok::<_, Seq<char>>(
                found_model(found),
            ),
            places(expired@) == expired_places(models.take(i as int), key@, now, ttl_secs),
        decreases entries.len() - i,
    {
        let entry = &entries[i];
        assert(models[i as int] == entry@);
        assert(models.take(i + 1).drop_last() == models.take(i as int));
        assert(models.take(i + 1).last() == entry@);
        if is_candidate(entry.name.as_str()) && entry.is_dir {
            if let Some(record) = &entry.sidecar {
                if text::same_text(record.key.as_str(), key) {
                    let t: u64 = match now {
                        Some(t) => t,
                        None => {
                            proof {
                                scan_error_is_final(models, i + 1, key@, now, ttl_secs);
                            }
                            return OrphanSearch {
                                expired,
                                found: Err(
                                    "system clock is before the Unix epoch; refusing idempotency decision".to_owned(),
                                ),
                            };
                        },
                    };
                    let lifetime: u64 = if ttl_secs == 0 { 1 } else { ttl_secs };
                    if t.saturating_sub(record.created_at_unix) >= lifetime {
                        expired.push(i);
                        assert(places(expired@) == expired_places(
                            models.take(i + 1),
                            key@,
                            now,
                            ttl_secs,
                        ));
                    } else {
                        if !text::same_text(record.run_id.as_str(), entry.name.as_str()) {
                            proof {
                                scan_error_is_final(models, i + 1, key@, now, ttl_secs);
                            }
                            return OrphanSearch {
                                expired,
                                found: Err(
                                    mismatch_detail(
                                        key,
                                        record.run_id.as_str(),
                                        entry.name.as_str(),
                                    ),
                                ),
                            };
                        }
                        match &found {
                            Some(first) => {
                                if !text::same_text(first.0.as_str(), record.run_id.as_str())
                                    || !text::same_text(
                                    first.1.as_str(),
                                    record.digest.as_str(),
                                ) {
                                    proof {
                                        scan_error_is_final(models, i + 1, key@, now, ttl_secs);
                                    }
                                    return OrphanSearch {
                                        expired,
                                        found: Err(duplicate_detail(key, first, record)),
                                    };
                                }
                            },
                            None => {
                                found = Some((record.run_id.clone(), record.digest.clone()));
                            },
                        }
                    }
                }
            }
        }
        i += 1;
    }
    assert(models.take(models.len() as int) == models);
    OrphanSearch { expired, found: Ok(found) }
}

/// What a search that went through means: the run that was found is named by a
/// live record, every live record of the key names that run with that digest,
/// and nothing is found only where no live record exists.
pub proof fn a_found_run_is_the_only_one(
    entries: Seq<RunEntryModel>,
    key: Seq<char>,
    now: u64,
    ttl_secs: u64,
)
    requires
        scan(entries, key, Some(now), ttl_secs) is Ok,
    ensures
        match scan(entries, key, Some(now), ttl_secs)->Ok_0 {
            Some((run_id, digest)) => (exists|i: int|
                0 <= i < entries.len() && live(#[trigger] entries[i], key, now, ttl_secs))
                && forall|i: int|
                0 <= i < entries.len() && live(#[trigger] entries[i], key, now, ttl_secs)
                    ==> entries[i].name == run_id && entries[i].sidecar->0.run_id == run_id
                    && entries[i].sidecar->0.digest == digest,
            None => forall|i: int|
                0 <= i < entries.len() ==> !live(#[trigger] entries[i], key, now, ttl_secs),
        },
    decreases entries.len(),
{
    if entries.len() > 0 {
        let front = entries.drop_last();
        a_found_run_is_the_only_one(front, key, now, ttl_secs);
        let n = entries.len() - 1;
        assert(entries.last() == entries[n]);
        assert forall|i: int| 0 <= i < n implies entries[i] == front[i] by {}
        if scan(front, key, Some(now), ttl_secs)->Ok_0 is Some {
            let i = choose|i: int|
                0 <= i < front.len() && live(#[trigger] front[i], key, now, ttl_secs);
            assert(live(entries[i], key, now, ttl_secs));
        } else if live(entries.last(), key, now, ttl_secs) {
            assert(live(entries[n], key, now, ttl_secs));
        }
    }
}

} // verus!
