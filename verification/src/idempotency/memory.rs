//! The in-memory side of idempotency: at most one entry per key, either a
//! request that is being executed here or a run that is already known.
use vstd::prelude::*;
use crate::table::TextTable;
use crate::text;

verus! {

broadcast use {vstd::seq::group_seq_axioms, vstd::map::group_map_axioms, vstd::set::group_set_axioms};

/// One key's entry. Instants are nanoseconds on the process clock.
#[derive(Debug)]
pub enum IdempotencyEntry {
    Pending { digest: String, owner_id: u128, created_at: u64 },
    Ready { digest: String, created_at: u64, run_id: String },
}

impl IdempotencyEntry {
    pub open spec fn created(self) -> u64 {
        match self {
            IdempotencyEntry::Pending { created_at, .. } => created_at,
            IdempotencyEntry::Ready { created_at, .. } => created_at,
        }
    }

    /// An entry leaves the table when its age reaches the lifetime.
    pub open spec fn fresh(self, now: u64, ttl_secs: u64) -> bool {
        let age = if now >= self.created() {
            now - self.created()
        } else {
            0
        };
        age < ttl_secs * 1_000_000_000
    }

    /// The entry of the request that `owner` is executing.
    pub open spec fn pending_of(self, owner: u128) -> bool {
        self matches IdempotencyEntry::Pending { owner_id, .. } && owner_id == owner
    }

    fn is_fresh(&self, now: u64, ttl_secs: u64) -> (r: bool)
        ensures
            r == self.fresh(now, ttl_secs),
    {
        let created: u64 = match self {
            IdempotencyEntry::Pending { created_at, .. } => *created_at,
            IdempotencyEntry::Ready { created_at, .. } => *created_at,
        };
        let age: u64 = now.saturating_sub(created);
        assert(ttl_secs * 1_000_000_000 <= u64::MAX * 1_000_000_000);
        (age as u128) < (ttl_secs as u128) * 1_000_000_000
    }
}

/// The table of entries.
pub type IdempotencyTable = TextTable<IdempotencyEntry>;

/// The entries that are still fresh.
pub open spec fn fresh_entries(
    table: Map<Seq<char>, IdempotencyEntry>,
    now: u64,
    ttl_secs: u64,
) -> Map<Seq<char>, IdempotencyEntry> {
    Map::new(
        |key: Seq<char>| table.contains_key(key) && table[key].fresh(now, ttl_secs),
        |key: Seq<char>| table[key],
    )
}

/// The order of eviction: the earlier entry first, and of two that are equally
/// old the one whose key comes first.
pub open spec fn evicted_before(
    a_created: u64,
    a_key: Seq<char>,
    b_created: u64,
    b_key: Seq<char>,
) -> bool {
    a_created < b_created || (a_created == b_created && text::comes_before(a_key, b_key))
}

/// What pruning leaves of a table: expired entries go; while the table is at
/// capacity the oldest known run goes, never a request in progress, and never
/// more of them than capacity asks for.
pub open spec fn pruned(
    before: Map<Seq<char>, IdempotencyEntry>,
    after: Map<Seq<char>, IdempotencyEntry>,
    now: u64,
    ttl_secs: u64,
    max_entries: nat,
) -> bool {
    let fresh = fresh_entries(before, now, ttl_secs);
    &&& after.submap_of(fresh)
    &&& forall|key: Seq<char>| #[trigger]
        fresh.contains_key(key) && !after.contains_key(key) ==> fresh[key] is Ready
    &&& after.len() < max_entries || forall|key: Seq<char>| #[trigger]
        after.contains_key(key) ==> after[key] is Pending
    &&& after == fresh || after.len() + 1 >= max_entries
    &&& forall|gone: Seq<char>, kept: Seq<char>|
        #![trigger fresh.contains_key(gone), after.contains_key(kept)]
        fresh.contains_key(gone) && !after.contains_key(gone) && after.contains_key(kept)
            && after[kept] is Ready ==> evicted_before(
            fresh[gone].created(),
            gone,
            after[kept].created(),
            kept,
        )
}

impl TextTable<IdempotencyEntry> {
    /// Withdraws the entry of the request that `owner` was executing; `true`
    /// when there was one. Entries of anyone else stay.
    pub fn withdraw(&mut self, key: &str, owner: u128) -> (r: bool)
        requires
            old(self).wf(),
        ensures
            final(self).wf(),
            r == (old(self)@.contains_key(key@) && old(self)@[key@].pending_of(owner)),
            final(self)@ == (if r {
                old(self)@.remove(key@)
            } else {
                old(self)@
            }),
    {
        let ours = match self.get(key) {
            Some(IdempotencyEntry::Pending { owner_id, .. }) => *owner_id == owner,
            _ => false,
        };
        if ours {
            let _gone = self.remove(key);
        }
        ours
    }
}

proof fn evicted_before_transitive(
    a_created: u64,
    a: Seq<char>,
    b_created: u64,
    b: Seq<char>,
    c_created: u64,
    c: Seq<char>,
)
    requires
        evicted_before(a_created, a, b_created, b),
        evicted_before(b_created, b, c_created, c),
    ensures
        evicted_before(a_created, a, c_created, c),
{
    if a_created == b_created && b_created == c_created {
        text::comes_before_transitive(a, b, c);
    }
}

impl TextTable<IdempotencyEntry> {
    fn first_expired(&self, now: u64, ttl_secs: u64) -> (r: Option<String>)
        requires
            self.wf(),
        ensures
            match r {
                Some(key) => self@.contains_key(key@) && !self@[key@].fresh(now, ttl_secs),
                None => forall|key: Seq<char>| #[trigger]
                    self@.contains_key(key) ==> self@[key].fresh(now, ttl_secs),
            },
    {
        proof {
            self.positions_cover_the_map();
        }
        let mut i: usize = 0;
        while i < self.len()
            invariant
                self.wf(),
                i <= self.count(),
                forall|j: int|
                    0 <= j < i ==> (#[trigger] self.value_at(j)).fresh(now, ttl_secs),
                forall|j: int|
                    0 <= j < self.count() ==> self@.contains_key(
                        (#[trigger] self.key_at(j)),
                    ) && self@[self.key_at(j)] == self.value_at(j),
            decreases self.count() - i,
        {
            if !self.entry_at(i).1.is_fresh(now, ttl_secs) {
                return Some(self.entry_at(i).0.clone());
            }
            i += 1;
        }
        None
    }

    fn drop_expired(&mut self, now: u64, ttl_secs: u64)
        requires
            old(self).wf(),
        ensures
            final(self).wf(),
            final(self)@ == fresh_entries(old(self)@, now, ttl_secs),
    {
        let ghost start = self@;
        loop
            invariant
                self.wf(),
                self@.submap_of(start),
                fresh_entries(self@, now, ttl_secs) == fresh_entries(start, now, ttl_secs),
            ensures
                self.wf(),
                self@ == fresh_entries(start, now, ttl_secs),
            decreases self.count(),
        {
            match self.first_expired(now, ttl_secs) {
                Some(key) => {
                    let ghost before = self@;
                    let _gone = self.remove(key.as_str());
                    assert(fresh_entries(self@, now, ttl_secs) =~= fresh_entries(
                        before,
                        now,
                        ttl_secs,
                    ));
                },
                None => {
                    assert(self@ =~= fresh_entries(self@, now, ttl_secs));
                    break;
                },
            }
        }
    }

    /// The known run that is evicted first.
    fn oldest_ready(&self) -> (r: Option<String>)
        requires
            self.wf(),
        ensures
            match r {
                Some(key) => self@.contains_key(key@) && self@[key@] is Ready && forall|
                    other: Seq<char>,
                |
                    #[trigger] self@.contains_key(other) && self@[other] is Ready && other != key@
                        ==> evicted_before(
                        self@[key@].created(),
                        key@,
                        self@[other].created(),
                        other,
                    ),
                None => forall|key: Seq<char>| #[trigger]
                    self@.contains_key(key) ==> self@[key] is Pending,
            },
    {
        proof {
            self.positions_cover_the_map();
        }
        let mut best: Option<usize> = None;
        let mut best_created: u64 = 0;
        let mut i: usize = 0;
        while i < self.len()
            invariant
                self.wf(),
                i <= self.count(),
                match best {
                    Some(b) => b < i && self.value_at(b as int) is Ready && best_created
                        == self.value_at(b as int).created() && forall|j: int|
                        0 <= j < i && j != b && (#[trigger] self.value_at(j)) is Ready
                            && self.key_at(j) != self.key_at(b as int) ==> evicted_before(
                            best_created,
                            self.key_at(b as int),
                            self.value_at(j).created(),
                            self.key_at(j),
                        ),
                    None => forall|j: int| 0 <= j < i ==> (#[trigger] self.value_at(j)) is Pending,
                },
            decreases self.count() - i,
        {
            if let IdempotencyEntry::Ready { created_at, .. } = self.entry_at(i).1 {
                let created: u64 = *created_at;
                match best {
                    None => {
                        best = Some(i);
                        best_created = created;
                    },
                    Some(b) => {
                        let earlier = created < best_created || (created == best_created
                            && text::is_before(
                            self.entry_at(i).0.as_str(),
                            self.entry_at(b).0.as_str(),
                        ));
                        proof {
                            let (kb, ki) = (self.key_at(b as int), self.key_at(i as int));
                            text::comes_before_total(ki, kb);
                            self.positions_cover_the_map();
                            if earlier {
                                assert forall|j: int|
                                    0 <= j < i && (#[trigger] self.value_at(j)) is Ready
                                        && self.key_at(j) != ki implies evicted_before(
                                    created,
                                    ki,
                                    self.value_at(j).created(),
                                    self.key_at(j),
                                ) by {
                                    if j != b && self.key_at(j) != kb {
                                        evicted_before_transitive(
                                            created,
                                            ki,
                                            best_created,
                                            kb,
                                            self.value_at(j).created(),
                                            self.key_at(j),
                                        );
                                    } else if j != b {
                                        assert(self.key_at(j) == self.key_at(b as int));
                                    }
                                }
                            }
                        }
                        if earlier {
                            best = Some(i);
                            best_created = created;
                        }
                    },
                }
            }
            i += 1;
        }
        match best {
            Some(b) => {
                let key = self.entry_at(b).0.clone();
                proof {
                    assert forall|other: Seq<char>| #[trigger]
                        self@.contains_key(other) && self@[other] is Ready && other
                            != key@ implies evicted_before(
                        self@[key@].created(),
                        key@,
                        self@[other].created(),
                        other,
                    ) by {
                        let j = choose|j: int|
                            0 <= j < self.count() && (#[trigger] self.key_at(j))
                                == other;
                        assert(self.value_at(j) is Ready);
                    }
                }
                Some(key)
            },
            None => {
                proof {
                    assert forall|key: Seq<char>| #[trigger]
                        self@.contains_key(key) implies self@[key] is Pending by {
                        let j = choose|j: int|
                            0 <= j < self.count() && (#[trigger] self.key_at(j)) == key;
                        assert(self.value_at(j) is Pending);
                    }
                }
                None
            },
        }
    }
}

/// Prunes the table by the lifetime and the capacity that the server booted
/// with. Capacity evicts known runs only: a request in progress has waiters.
pub fn prune_idempotency(
    entries: &mut IdempotencyTable,
    now: u64,
    ttl_secs: u64,
    max_entries: usize,
)
    requires
        old(entries).wf(),
    ensures
        final(entries).wf(),
        pruned(old(entries)@, final(entries)@, now, ttl_secs, max_entries as nat),
{
    let ghost start = entries@;
    entries.drop_expired(now, ttl_secs);
    let ghost fresh = entries@;
    loop
        invariant
            entries.wf(),
            fresh == fresh_entries(start, now, ttl_secs),
            entries@.submap_of(fresh),
            forall|key: Seq<char>| #[trigger]
                fresh.contains_key(key) && !entries@.contains_key(key) ==> fresh[key] is Ready,
            entries@ == fresh || entries@.len() + 1 >= max_entries,
            forall|gone: Seq<char>, kept: Seq<char>|
                #![trigger fresh.contains_key(gone), entries@.contains_key(kept)]
                fresh.contains_key(gone) && !entries@.contains_key(gone) && entries@.contains_key(
                    kept,
                ) && entries@[kept] is Ready ==> evicted_before(
                    fresh[gone].created(),
                    gone,
                    entries@[kept].created(),
                    kept,
                ),
        ensures
            entries.wf(),
            pruned(start, entries@, now, ttl_secs, max_entries as nat),
        decreases entries.count(),
    {
        if entries.len() < max_entries {
            break;
        }
        match entries.oldest_ready() {
            None => {
                break;
            },
            Some(key) => {
                let ghost before = *entries;
                proof {
                    before.positions_cover_the_map();
                }
                let _gone = entries.remove(key.as_str());
                proof {
                    entries.positions_cover_the_map();
                    assert(entries@.submap_of(before@));
                    assert(entries@.submap_of(fresh));
                }
            },
        }
    }
}

} // verus!
