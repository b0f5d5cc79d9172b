//! Request rate limiting: one token bucket per verified identity, and a shared
//! one for everyone else. Tokens are counted in billionths and instants in
//! nanoseconds, so that a rate of one token per second is one unit per
//! nanosecond.
use vstd::prelude::*;
use vstd::string::*;
use crate::auth;
use crate::digest;
use crate::environment;
use crate::environment::{Setting, Variable};
use crate::error;
use crate::error::ApiHttpError;
use crate::header;
use crate::text;

verus! {

/// The most identities that have a bucket of their own.
pub const MAX_TRACKED_BUCKETS: usize = 4096;

/// One token, in the units that buckets count in.
pub const TOKEN: u64 = 1_000_000_000;

/// The rate limit that a server booted with.
#[derive(Debug, Clone, PartialEq, Eq)]
pub struct RateLimitPolicy {
    /// Tokens per second.
    pub rps: u32,
    /// The most tokens that a bucket holds.
    pub burst: u32,
    /// A header that an outer proxy sets to an identity it has verified.
    pub trusted_identity_header: Option<String>,
}

/// A rate limit as values.
pub struct PolicyModel {
    pub rps: u32,
    pub burst: u32,
    pub trusted_identity_header: Option<Seq<char>>,
}

impl View for RateLimitPolicy {
    type V = PolicyModel;

    open spec fn view(&self) -> PolicyModel {
        PolicyModel {
            rps: self.rps,
            burst: self.burst,
            trusted_identity_header: self.trusted_identity_header.deep_view(),
        }
    }
}

/// The refusal of a knob that must be an integer of at least one.
pub open spec fn at_least_one_refusal(name: Seq<char>, value: Seq<char>) -> Seq<char> {
    "invalid "@ + name + " `"@ + value + "`: must be an integer of at least 1"@
}

/// The positive integer that `value` spells, if it does and `max` admits it.
pub open spec fn positive_value(value: Seq<char>, max: nat) -> Option<nat> {
    match text::unsigned_value(value, max) {
        Some(n) => if n >= 1 {
            Some(n)
        } else {
            None
        },
        None => None,
    }
}

/// Parses a positive 32-bit integer; the refusal names the knob.
pub fn parse_positive(name: &str, value: &str) -> (r: Result<u32, String>)
    ensures
        match r {
            Ok(n) => positive_value(value@, u32::MAX as nat) == Some(n as nat),
            Err(detail) => positive_value(value@, u32::MAX as nat) is None && detail@
                == at_least_one_refusal(name@, value@),
        },
{
    match text::parse_unsigned(value, u32::MAX as u64) {
        Some(n) if n >= 1 => Ok(n as u32),
        _ => {
            let mut detail = "invalid ".to_owned();
            detail.append(name);
            detail.append(" `");
            detail.append(value);
            detail.append("`: must be an integer of at least 1");
            Err(detail)
        },
    }
}

/// The name of the trusted identity header that `value` gives, if it is one: a
/// header name other than `authorization`.
pub open spec fn identity_header(value: Seq<char>) -> Option<Seq<char>> {
    let name = text::lower(text::trimmed(value));
    if name.len() == 0 || name == "authorization"@ || name.contains(' ') || name.contains(':') {
        None
    } else {
        Some(name)
    }
}

/// The value of a knob that must be a positive 32-bit integer.
pub open spec fn positive_setting(name: Seq<char>, value: Setting, default: nat) -> Result<
    nat,
    Seq<char>,
> {
    match value {
        Setting::Unset => Ok(default),
        Setting::NotText => Err(environment::not_text_refusal(name)),
        Setting::Text(value) => match positive_value(value, u32::MAX as nat) {
            Some(n) => Ok(n),
            None => Err(at_least_one_refusal(name, value)),
        },
    }
}

/// The trusted identity header that the environment names, if it names one.
pub open spec fn identity_setting(value: Setting) -> Result<Option<Seq<char>>, Seq<char>> {
    match value {
        Setting::Unset => Ok(None),
        Setting::NotText => Err(environment::not_text_refusal("QCG_RATE_LIMIT_IDENTITY_HEADER"@)),
        Setting::Text(value) => match identity_header(value) {
            Some(name) => Ok(Some(name)),
            None => Err(
                "invalid QCG_RATE_LIMIT_IDENTITY_HEADER `"@ + value
                    + "`: must be a non-authorization header name"@,
            ),
        },
    }
}

/// The rate limit that the environment asks for. Without a rate there is none,
/// and the burst defaults to the rate; everything that is incomplete or out of
/// range is refused.
pub open spec fn rate_limit_policy(rps: Setting, burst: Setting, identity: Setting) -> Result<
    Option<PolicyModel>,
    Seq<char>,
> {
    if rps is Unset {
        if burst is Unset {
            Ok(None)
        } else {
            Err("QCG_RATE_LIMIT_BURST is set without QCG_RATE_LIMIT_RPS; set both or neither"@)
        }
    } else {
        match positive_setting("QCG_RATE_LIMIT_RPS"@, rps, 0) {
            Err(detail) => Err(detail),
            Ok(rate) => match positive_setting("QCG_RATE_LIMIT_BURST"@, burst, rate) {
                Err(detail) => Err(detail),
                Ok(most) => match identity_setting(identity) {
                    Err(detail) => Err(detail),
                    Ok(trusted_identity_header) => Ok(
                        Some(
                            PolicyModel {
                                rps: rate as u32,
                                burst: most as u32,
                                trusted_identity_header,
                            },
                        ),
                    ),
                },
            },
        }
    }
}

/// A resolved policy as values.
pub open spec fn policy_view(policy: Option<RateLimitPolicy>) -> Option<PolicyModel> {
    match policy {
        Some(policy) => Some(policy@),
        None => None,
    }
}

fn resolve_positive(name: &str, value: &Variable, default: u32) -> (r: Result<u32, String>)
    ensures
        match r {
            Ok(n) => positive_setting(name@, value@, default as nat) == Ok::<_, Seq<char>>(
                n as nat,
            ),
            Err(detail) => positive_setting(name@, value@, default as nat) == Err::<nat, _>(
                detail@,
            ),
        },
{
    match value {
        Variable::Unset => Ok(default),
        Variable::NotText => Err(environment::refuse_not_text(name)),
        Variable::Text(value) => parse_positive(name, value.as_str()),
    }
}

fn resolve_identity_header(value: &Variable) -> (r: Result<Option<String>, String>)
    ensures
        match r {
            Ok(name) => identity_setting(value@) == Ok::<_, Seq<char>>(name.deep_view()),
            Err(detail) => identity_setting(value@) == Err::<Option<Seq<char>>, _>(detail@),
        },
{
    match value {
        Variable::Unset => Ok(None),
        Variable::NotText => Err(environment::refuse_not_text("QCG_RATE_LIMIT_IDENTITY_HEADER")),
        Variable::Text(value) => {
            let trimmed = text::trim(value.as_str());
            let name = text::to_lower(trimmed.as_str());
            if name.as_str().is_empty() || text::same_text(name.as_str(), "authorization")
                || text::has_char(name.as_str(), ' ') || text::has_char(name.as_str(), ':') {
                let mut detail = "invalid QCG_RATE_LIMIT_IDENTITY_HEADER `".to_owned();
                detail.append(value.as_str());
                detail.append("`: must be a non-authorization header name");
                return Err(detail);
            }
            Ok(Some(name))
        },
    }
}

/// Resolves the rate limit from the values of `QCG_RATE_LIMIT_RPS`,
/// `QCG_RATE_LIMIT_BURST` and `QCG_RATE_LIMIT_IDENTITY_HEADER`.
pub fn resolve_rate_limit_policy(rps: &Variable, burst: &Variable, identity: &Variable) -> (r:
    Result<Option<RateLimitPolicy>, String>)
    ensures
        match r {
            Ok(policy) => rate_limit_policy(rps@, burst@, identity@) == Ok::<_, Seq<char>>(
                policy_view(policy),
            ) && (policy matches Some(p) ==> p.rps >= 1 && p.burst >= 1),
            Err(detail) => rate_limit_policy(rps@, burst@, identity@) == Err::<
                Option<PolicyModel>,
                _,
            >(detail@),
        },
{
    if !rps.is_set() {
        if burst.is_set() {
            return Err(
                "QCG_RATE_LIMIT_BURST is set without QCG_RATE_LIMIT_RPS; set both or neither".to_owned(),
            );
        }
        return Ok(None);
    }
    let rps: u32 = match resolve_positive("QCG_RATE_LIMIT_RPS", rps, 0) {
        Ok(n) => n,
        Err(detail) => {
            return Err(detail);
        },
    };
    let burst: u32 = match resolve_positive("QCG_RATE_LIMIT_BURST", burst, rps) {
        Ok(n) => n,
        Err(detail) => {
            return Err(detail);
        },
    };
    match resolve_identity_header(identity) {
        Ok(trusted_identity_header) => Ok(
            Some(RateLimitPolicy { rps, burst, trusted_identity_header }),
        ),
        Err(detail) => Err(detail),
    }
}

/// A bucket: the units it held when it was last refilled.
#[derive(Debug, Clone, Copy)]
pub struct TokenBucket {
    pub tokens: u64,
    pub last_refill: u64,
}

/// What a bucket holds when it is full.
pub open spec fn capacity(burst: u32) -> int {
    burst * TOKEN
}

/// The bucket as it stands at `now`: it gains `rps` units per nanosecond up to
/// its capacity. A clock that went back gains nothing.
pub open spec fn refilled(bucket: TokenBucket, now: u64, rps: u32, burst: u32) -> TokenBucket {
    if now <= bucket.last_refill {
        bucket
    } else {
        let gained = bucket.tokens + (now - bucket.last_refill) * rps;
        TokenBucket {
            tokens: (if gained > capacity(burst) {
                capacity(burst)
            } else {
                gained
            }) as u64,
            last_refill: now,
        }
    }
}

/// A bucket that was just made.
pub open spec fn full_bucket(now: u64, burst: u32) -> TokenBucket {
    TokenBucket { tokens: capacity(burst) as u64, last_refill: now }
}

/// The nanoseconds until the bucket holds a whole token.
pub open spec fn wait_for_token(bucket: TokenBucket, rps: u32) -> int {
    (TOKEN - bucket.tokens + rps - 1) / (rps as int)
}

/// Identities: the digest of a verified one, or `None` for everyone else.
pub type Identity = Option<Seq<u8>>;

/// The buckets, by identity.
pub type Buckets = Map<Identity, TokenBucket>;

/// The bucket that a request of `key` draws from: its own, unless it has none
/// and the table is full.
pub open spec fn drawn_key(buckets: Buckets, key: Identity) -> Identity {
    if !buckets.contains_key(key) && buckets.len() >= MAX_TRACKED_BUCKETS {
        None
    } else {
        key
    }
}

/// The limiter and its buckets.
pub struct RateLimiter {
    policy: RateLimitPolicy,
    expected_digest: Option<[u8; 32]>,
    buckets: Vec<(Option<[u8; 32]>, TokenBucket)>,
}

impl RateLimiter {
    pub closed spec fn rps(self) -> u32 {
        self.policy.rps
    }

    pub closed spec fn burst(self) -> u32 {
        self.policy.burst
    }

    pub closed spec fn identity_header_name(self) -> Option<Seq<char>> {
        self.policy.trusted_identity_header.deep_view()
    }

    /// The digest of the configured token, if there is one.
    pub closed spec fn expected(self) -> Option<Seq<u8>> {
        auth::digest_view(self.expected_digest)
    }

    spec fn keys(self) -> Seq<Identity> {
        self.buckets@.map_values(|e: (Option<[u8; 32]>, TokenBucket)| auth::digest_view(e.0))
    }

    /// No identity has two buckets, no bucket holds more than its capacity,
    /// and the table holds at most one bucket beyond its bound: the shared one.
    pub closed spec fn wf(self) -> bool {
        &&& self.keys().no_duplicates()
        &&& self.policy.rps >= 1
        &&& forall|i: int|
            0 <= i < self.buckets@.len() ==> (#[trigger] self.buckets@[i]).1.tokens <= capacity(
                self.policy.burst,
            )
        &&& self.buckets@.len() <= MAX_TRACKED_BUCKETS || (self.buckets@.len()
            == MAX_TRACKED_BUCKETS + 1 && self@.contains_key(None))
    }

    spec fn position(self, key: Identity) -> int {
        choose|i: int|
            0 <= i < self.buckets@.len() && auth::digest_view((#[trigger] self.buckets@[i]).0)
                == key
    }
}

impl View for RateLimiter {
    type V = Buckets;

    closed spec fn view(&self) -> Buckets {
        Map::new(
            |key: Identity|
                exists|i: int|
                    0 <= i < self.buckets@.len() && auth::digest_view(
                        (#[trigger] self.buckets@[i]).0,
                    ) == key,
            |key: Identity| self.buckets@[self.position(key)].1,
        )
    }
}

fn same_bytes(x: &[u8; 32], y: &[u8; 32]) -> (r: bool)
    ensures
        r == (x@ == y@),
{
    let mut i: usize = 0;
    while i < 32
        invariant
            i <= 32,
            forall|j: int| 0 <= j < i ==> x@[j] == y@[j],
        decreases 32 - i,
    {
        if x[i] != y[i] {
            return false;
        }
        i += 1;
    }
    assert(x@ =~= y@);
    true
}

fn same_identity(a: &Option<[u8; 32]>, b: &Option<[u8; 32]>) -> (r: bool)
    ensures
        r == (auth::digest_view(*a) == auth::digest_view(*b)),
{
    match (a, b) {
        (None, None) => true,
        (Some(x), Some(y)) => same_bytes(x, y),
        _ => false,
    }
}

/// What one request does to the buckets, and whether it is admitted. Where a
/// bucket had to make room for the shared one, `evicted` was a fullest one.
pub open spec fn acquires(
    before: Buckets,
    after: Buckets,
    key: Identity,
    evicted: Option<Identity>,
    now: u64,
    rps: u32,
    burst: u32,
    r: Result<(), u64>,
) -> bool {
    let key_used = drawn_key(before, key);
    let kept = match evicted {
        Some(gone) => before.remove(gone),
        None => before,
    };
    let bucket = if before.contains_key(key_used) {
        refilled(before[key_used], now, rps, burst)
    } else {
        full_bucket(now, burst)
    };
    &&& evicted is Some <==> key is None && !before.contains_key(key) && before.len()
        >= MAX_TRACKED_BUCKETS
    &&& evicted matches Some(gone) ==> before.contains_key(gone) && forall|other: Identity|
        #[trigger] before.contains_key(other) ==> before[other].tokens <= before[gone].tokens
    &&& match r {
        Ok(()) => bucket.tokens >= TOKEN && after == kept.insert(
            key_used,
            TokenBucket { tokens: (bucket.tokens - TOKEN) as u64, ..bucket },
        ),
        Err(wait) => bucket.tokens < TOKEN && after == kept.insert(key_used, bucket) && wait
            == wait_for_token(bucket, rps),
    }
}

impl RateLimiter {
    proof fn view_facts(self)
        requires
            self.keys().no_duplicates(),
        ensures
            self@.dom().finite(),
            self@.len() == self.buckets@.len(),
            forall|i: int|
                0 <= i < self.buckets@.len() ==> self@.contains_key(
                    auth::digest_view((#[trigger] self.buckets@[i]).0),
                ) && self@[auth::digest_view(self.buckets@[i].0)] == self.buckets@[i].1,
            forall|key: Identity| #[trigger]
                self@.contains_key(key) ==> exists|i: int|
                    0 <= i < self.buckets@.len() && auth::digest_view(
                        (#[trigger] self.buckets@[i]).0,
                    ) == key,
    {
        let keys = self.keys();
        keys.unique_seq_to_set();
        assert(self@.dom() =~= keys.to_set()) by {
            assert forall|key: Identity| keys.to_set().contains(key) implies self@.dom().contains(
                key,
            ) by {
                let i = choose|i: int| 0 <= i < keys.len() && keys[i] == key;
                assert(auth::digest_view(self.buckets@[i].0) == key);
            }
            assert forall|key: Identity| self@.dom().contains(key) implies keys.to_set().contains(
                key,
            ) by {
                let i = choose|i: int|
                    0 <= i < self.buckets@.len() && auth::digest_view(
                        (#[trigger] self.buckets@[i]).0,
                    ) == key;
                assert(keys[i] == key);
            }
        }
        assert forall|i: int| 0 <= i < self.buckets@.len() implies self@.contains_key(
            auth::digest_view((#[trigger] self.buckets@[i]).0),
        ) && self@[auth::digest_view(self.buckets@[i].0)] == self.buckets@[i].1 by {
            let key = auth::digest_view(self.buckets@[i].0);
            let j = self.position(key);
            assert(0 <= j < self.buckets@.len() && auth::digest_view(self.buckets@[j].0) == key);
            assert(keys[i] == keys[j]);
            assert(i == j);
        }
    }

    /// No bucket ever holds more than its capacity.
    pub proof fn buckets_keep_their_capacity(self)
        requires
            self.wf(),
        ensures
            forall|key: Identity| #[trigger]
                self@.contains_key(key) ==> self@[key].tokens <= capacity(self.burst()),
    {
        self.view_facts();
        assert forall|key: Identity| #[trigger] self@.contains_key(key) implies self@[key].tokens
            <= capacity(self.burst()) by {
            let i = choose|i: int|
                0 <= i < self.buckets@.len() && auth::digest_view((#[trigger] self.buckets@[i]).0)
                    == key;
            assert(self.buckets@[i].1.tokens <= capacity(self.policy.burst));
        }
    }

    /// A limiter without any bucket yet. Without an expected digest nobody is
    /// verified, and all requests share one bucket.
    pub fn with_expected_digest(
        policy: RateLimitPolicy,
        expected_digest: Option<[u8; 32]>,
    ) -> (r: Self)
        requires
            policy.rps >= 1,
        ensures
            r.wf(),
            r@ == Buckets::empty(),
            r.rps() == policy.rps,
            r.burst() == policy.burst,
            r.identity_header_name() == policy.trusted_identity_header.deep_view(),
            r.expected() == auth::digest_view(expected_digest),
    {
        let r = RateLimiter { policy, expected_digest, buckets: Vec::new() };
        assert(r@ =~= Buckets::empty());
        r
    }

    /// How many buckets there are.
    pub fn bucket_count(&self) -> (r: usize)
        requires
            self.wf(),
        ensures
            r == self@.len(),
            r <= MAX_TRACKED_BUCKETS + 1,
    {
        proof {
            self.view_facts();
        }
        self.buckets.len()
    }

    fn find(&self, key: &Option<[u8; 32]>) -> (r: Option<usize>)
        requires
            self.keys().no_duplicates(),
        ensures
            match r {
                Some(i) => i < self.buckets@.len() && auth::digest_view(self.buckets@[i as int].0)
                    == auth::digest_view(*key) && self@.contains_key(auth::digest_view(*key))
                    && self@[auth::digest_view(*key)] == self.buckets@[i as int].1,
                None => !self@.contains_key(auth::digest_view(*key)),
            },
    {
        proof {
            self.view_facts();
        }
        let mut i: usize = 0;
        while i < self.buckets.len()
            invariant
                i <= self.buckets@.len(),
                forall|j: int|
                    0 <= j < i ==> auth::digest_view((#[trigger] self.buckets@[j]).0)
                        != auth::digest_view(*key),
                forall|j: int|
                    0 <= j < self.buckets@.len() ==> self@.contains_key(
                        auth::digest_view((#[trigger] self.buckets@[j]).0),
                    ) && self@[auth::digest_view(self.buckets@[j].0)] == self.buckets@[j].1,
            decreases self.buckets.len() - i,
        {
            if same_identity(&self.buckets[i].0, key) {
                return Some(i);
            }
            i += 1;
        }
        None
    }

    /// The position of a bucket that holds at least as much as any other.
    fn fullest(&self) -> (r: usize)
        requires
            self.buckets@.len() > 0,
        ensures
            r < self.buckets@.len(),
            forall|j: int|
                0 <= j < self.buckets@.len() ==> (#[trigger] self.buckets@[j]).1.tokens
                    <= self.buckets@[r as int].1.tokens,
    {
        let mut best: usize = 0;
        let mut i: usize = 1;
        while i < self.buckets.len()
            invariant
                0 < i <= self.buckets@.len(),
                best < i,
                forall|j: int|
                    0 <= j < i ==> (#[trigger] self.buckets@[j]).1.tokens
                        <= self.buckets@[best as int].1.tokens,
            decreases self.buckets.len() - i,
        {
            if self.buckets[i].1.tokens > self.buckets[best].1.tokens {
                best = i;
            }
            i += 1;
        }
        best
    }

    fn drop_at(&mut self, i: usize)
        requires
            old(self).keys().no_duplicates(),
            i < old(self).buckets@.len(),
        ensures
            final(self).keys().no_duplicates(),
            final(self).policy == old(self).policy,
            final(self).expected_digest == old(self).expected_digest,
            final(self).buckets@ == old(self).buckets@.remove(i as int),
            final(self)@ == old(self)@.remove(auth::digest_view(old(self).buckets@[i as int].0)),
    {
        let ghost before = *self;
        let _gone = self.buckets.remove(i);
        proof {
            before.view_facts();
            let (ka, kb) = (self.keys(), before.keys());
            assert(ka =~= kb.remove(i as int));
            self.view_facts();
            let gone = auth::digest_view(before.buckets@[i as int].0);
            assert(kb[i as int] == gone);
            let goal = before@.remove(gone);
            assert forall|k: Identity| #[trigger] self@.contains_key(k) implies goal.contains_key(k)
                && self@[k] == goal[k] by {
                let j = choose|j: int|
                    0 <= j < self.buckets@.len() && auth::digest_view(
                        (#[trigger] self.buckets@[j]).0,
                    ) == k;
                let m = if j < i {
                    j
                } else {
                    j + 1
                };
                assert(before.buckets@[m] == self.buckets@[j]);
                assert(kb[m] == k);
            }
            assert forall|k: Identity| #[trigger] goal.contains_key(k) implies self@.contains_key(k) by {
                let m = choose|m: int|
                    0 <= m < before.buckets@.len() && auth::digest_view(
                        (#[trigger] before.buckets@[m]).0,
                    ) == k;
                let j = if m < i {
                    m
                } else {
                    m - 1
                };
                assert(self.buckets@[j] == before.buckets@[m]);
            }
            assert(self@.dom() =~= goal.dom());
            assert(self@ =~= goal);
        }
    }

    fn put(&mut self, key: Option<[u8; 32]>, at: Option<usize>, bucket: TokenBucket)
        requires
            old(self).keys().no_duplicates(),
            match at {
                Some(i) => i < old(self).buckets@.len() && auth::digest_view(
                    old(self).buckets@[i as int].0,
                ) == auth::digest_view(key),
                None => !old(self)@.contains_key(auth::digest_view(key)),
            },
        ensures
            final(self).keys().no_duplicates(),
            final(self).policy == old(self).policy,
            final(self).expected_digest == old(self).expected_digest,
            final(self)@ == old(self)@.insert(auth::digest_view(key), bucket),
            final(self).buckets@.len() == old(self).buckets@.len() + (if at is Some {
                0int
            } else {
                1
            }),
            forall|j: int|
                0 <= j < final(self).buckets@.len() ==> (#[trigger] final(self).buckets@[j]).1
                    == bucket || old(self).buckets@.contains(final(self).buckets@[j]),
    {
        let ghost before = *self;
        let ghost k0 = auth::digest_view(key);
        let ghost n = match at {
            Some(i) => i as int,
            None => before.buckets@.len() as int,
        };
        match at {
            Some(i) => {
                self.buckets.set(i, (key, bucket));
            },
            None => {
                self.buckets.push((key, bucket));
            },
        }
        proof {
            before.view_facts();
            let (ka, kb) = (self.keys(), before.keys());
            assert forall|j: int| 0 <= j < self.buckets@.len() && j != n implies self.buckets@[j]
                == before.buckets@[j] by {}
            if at is Some {
                assert(ka =~= kb);
            } else {
                assert(ka =~= kb.push(k0));
                assert forall|j: int| 0 <= j < kb.len() implies kb[j] != k0 by {
                    assert(before@.contains_key(auth::digest_view(before.buckets@[j].0)));
                }
            }
            self.view_facts();
            let goal = before@.insert(k0, bucket);
            assert(self.buckets@[n] == (key, bucket));
            assert forall|k: Identity| self@.contains_key(k) implies goal.contains_key(k)
                && self@[k] == goal[k] by {
                let j = choose|j: int|
                    0 <= j < self.buckets@.len() && auth::digest_view(
                        (#[trigger] self.buckets@[j]).0,
                    ) == k;
                assert(ka[j] == k && ka[n] == k0);
                if j != n {
                    assert(before.buckets@[j] == self.buckets@[j]);
                }
            }
            assert forall|k: Identity| goal.contains_key(k) implies self@.contains_key(k) by {
                if k != k0 {
                    let j = choose|j: int|
                        0 <= j < before.buckets@.len() && auth::digest_view(
                            (#[trigger] before.buckets@[j]).0,
                        ) == k;
                    assert(self.buckets@[j] == before.buckets@[j]);
                }
            }
            assert(self@ =~= goal);
        }
    }

    /// Takes one token for an identity at `now`. A refusal says after how many
    /// nanoseconds the bucket holds a token again.
    pub fn try_acquire(&mut self, key: Option<[u8; 32]>, now: u64) -> (r: Result<(), u64>)
        requires
            old(self).wf(),
        ensures
            final(self).wf(),
            final(self).rps() == old(self).rps(),
            final(self).burst() == old(self).burst(),
            final(self).expected() == old(self).expected(),
            final(self).identity_header_name() == old(self).identity_header_name(),
            exists|evicted: Option<Identity>| #[trigger]
                acquires(
                    old(self)@,
                    final(self)@,
                    auth::digest_view(key),
                    evicted,
                    now,
                    old(self).rps(),
                    old(self).burst(),
                    r,
                ),
    {
        let ghost start = *self;
        proof {
            self.view_facts();
        }
        let rps: u32 = self.policy.rps;
        let burst: u32 = self.policy.burst;
        let full: u64 = burst as u64 * TOKEN;
        let mut key = key;
        let ghost asked = auth::digest_view(key);
        let mut at = self.find(&key);
        let ghost mut evicted: Option<Identity> = None;
        if at.is_none() && self.buckets.len() >= MAX_TRACKED_BUCKETS {
            if key.is_some() {
                key = None;
                at = self.find(&key);
            } else {
                let gone = self.fullest();
                proof {
                    let k = auth::digest_view(self.buckets@[gone as int].0);
                    evicted = Some(k);
                    assert forall|other: Identity| #[trigger]
                        start@.contains_key(other) implies start@[other].tokens
                        <= start@[k].tokens by {
                        let j = choose|j: int|
                            0 <= j < start.buckets@.len() && auth::digest_view(
                                (#[trigger] start.buckets@[j]).0,
                            ) == other;
                        assert(start.buckets@[j].1.tokens <= start.buckets@[gone as int].1.tokens);
                    }
                }
                self.drop_at(gone);
            }
        }
        let ghost middle = *self;
        let ghost used = drawn_key(start@, asked);
        assert(used == auth::digest_view(key));
        let bucket: TokenBucket = match at {
            Some(i) => {
                let held = self.buckets[i].1;
                if now <= held.last_refill {
                    held
                } else {
                    let elapsed: u64 = now - held.last_refill;
                    assert(elapsed * rps <= u64::MAX * u32::MAX) by (nonlinear_arith)
                        requires
                            elapsed <= u64::MAX,
                            rps <= u32::MAX,
                    ;
                    let gained: u128 = held.tokens as u128 + elapsed as u128 * rps as u128;
                    let tokens: u64 = if gained > full as u128 { full } else { gained as u64 };
                    TokenBucket { tokens, last_refill: now }
                }
            },
            None => TokenBucket { tokens: full, last_refill: now },
        };
        assert(bucket == if start@.contains_key(used) {
            refilled(start@[used], now, rps, burst)
        } else {
            full_bucket(now, burst)
        });
        assert(bucket.tokens <= capacity(burst));
        let admitted = bucket.tokens >= TOKEN;
        let left = if admitted {
            TokenBucket { tokens: bucket.tokens - TOKEN, last_refill: bucket.last_refill }
        } else {
            bucket
        };
        self.put(key, at, left);
        proof {
            self.view_facts();
            middle.view_facts();
            assert(self.wf());
        }
        if admitted {
            assert(acquires(start@, self@, asked, evicted, now, start.rps(), start.burst(), Ok(())));
            Ok(())
        } else {
            let missing: u64 = TOKEN - bucket.tokens;
            let wait: u64 = (missing + rps as u64 - 1) / rps as u64;
            assert(wait == wait_for_token(bucket, rps));
            assert(acquires(start@, self@, asked, evicted, now, start.rps(), start.burst(), Err(wait)));
            Err(wait)
        }
    }
}

/// Compares two digests in a time that does not depend on their content.
pub fn constant_time_eq(left: &[u8; 32], right: &[u8; 32]) -> (r: bool)
    ensures
        r == (left@ == right@),
{
    digest::equal_digests(left, right)
}

/// The identity that a trusted header asserts: its text without white space at
/// either end, unless nothing is left.
pub open spec fn asserted_identity(value: Option<Seq<u8>>) -> Option<Seq<char>> {
    match value {
        Some(bytes) => if header::all_visible(bytes) && text::trimmed(
            header::ascii_text(bytes),
        ).len() > 0 {
            Some(text::trimmed(header::ascii_text(bytes)))
        } else {
            None
        },
        None => None,
    }
}

/// The identity of a request: what a trusted header asserts, or else the
/// configured credential where it is presented. Everyone else is nobody, so
/// that made-up credentials gain nothing.
pub open spec fn request_identity(
    trusted: Option<Seq<u8>>,
    authorization: Option<Seq<u8>>,
    expected: Option<Seq<u8>>,
) -> Identity {
    match asserted_identity(trusted) {
        Some(name) => Some(digest::sha256(vstd::utf8::encode_utf8(name))),
        None => match (auth::bearer_token(authorization), expected) {
            (Some(token), Some(digest)) => if digest::sha256(vstd::utf8::encode_utf8(token))
                == digest {
                Some(digest)
            } else {
                None
            },
            _ => None,
        },
    }
}

/// The value of the trusted identity header counts only where one is
/// configured.
pub open spec fn trusted_value(name: Option<Seq<char>>, value: Option<Seq<u8>>) -> Option<Seq<u8>> {
    if name is Some {
        value
    } else {
        None
    }
}

/// Whole seconds for `Retry-After`: rounded up, and never zero.
pub open spec fn retry_seconds(wait_nanos: u64) -> int {
    if wait_nanos == 0 {
        1
    } else {
        (wait_nanos + 999_999_999) / 1_000_000_000
    }
}

/// Whole seconds for `Retry-After`, from a wait in nanoseconds.
pub fn retry_after_seconds(wait_nanos: u64) -> (r: u64)
    ensures
        r == retry_seconds(wait_nanos),
        r >= 1,
        r * 1_000_000_000 >= wait_nanos,
{
    let whole: u64 = wait_nanos / 1_000_000_000;
    let rounded: u64 = if wait_nanos % 1_000_000_000 == 0 { whole } else { whole + 1 };
    if rounded < 1 {
        1
    } else {
        rounded
    }
}

/// The refusal of a request beyond the rate limit.
#[derive(Debug)]
pub struct Throttled {
    pub refusal: ApiHttpError,
    /// The value of `Retry-After`.
    pub retry_after: u64,
}

impl RateLimiter {
    /// The name of the trusted identity header, if one is configured.
    pub fn trusted_identity_header(&self) -> (r: Option<String>)
        ensures
            r.deep_view() == self.identity_header_name(),
    {
        text::copy_option(&self.policy.trusted_identity_header)
    }

    /// The identity that a request draws its token for. `trusted` is the value
    /// of the trusted identity header and counts only where one is configured.
    pub fn rate_key(&self, trusted: Option<&[u8]>, authorization: Option<&[u8]>) -> (r: Option<
        [u8; 32],
    >)
        ensures
            auth::digest_view(r) == request_identity(
                trusted_value(self.identity_header_name(), auth::bytes_view(trusted)),
                auth::bytes_view(authorization),
                self.expected(),
            ),
    {
        if self.policy.trusted_identity_header.is_some() {
            if let Some(bytes) = trusted {
                if let Some(raw) = header::header_text(bytes) {
                    let name = text::trim(raw.as_str());
                    if !name.as_str().is_empty() {
                        return Some(digest::sha256_bytes(name.as_str()));
                    }
                }
            }
        }
        let token = match auth::presented_bearer(authorization) {
            Some(token) => token,
            None => {
                return None;
            },
        };
        let expected = match &self.expected_digest {
            Some(expected) => expected,
            None => {
                return None;
            },
        };
        let supplied = digest::sha256_bytes(token.as_str());
        if constant_time_eq(&supplied, expected) {
            Some(supplied)
        } else {
            None
        }
    }

    /// What enforcement does to the limiter, and its answer: liveness probes
    /// leave it alone; every other request draws a token for its identity and
    /// is refused where there is none. The settings never change.
    pub open spec fn enforced(
        self,
        after: RateLimiter,
        path: Seq<char>,
        trusted: Option<Seq<u8>>,
        authorization: Option<Seq<u8>>,
        now: u64,
        r: Result<(), Throttled>,
    ) -> bool {
        if path == "/healthz"@ {
            r is Ok && after == self
        } else {
            &&& after.rps() == self.rps()
            &&& after.burst() == self.burst()
            &&& after.expected() == self.expected()
            &&& after.identity_header_name() == self.identity_header_name()
            &&& exists|evicted: Option<Identity>, drawn: Result<(), u64>|
                #[trigger]
                acquires(
                    self@,
                    after@,
                    request_identity(
                        trusted_value(self.identity_header_name(), trusted),
                        authorization,
                        self.expected(),
                    ),
                    evicted,
                    now,
                    self.rps(),
                    self.burst(),
                    drawn,
                ) && (match r {
                    Ok(()) => drawn is Ok,
                    Err(throttled) => drawn matches Err(wait) && throttled.retry_after
                        == retry_seconds(wait) && throttled.refusal@
                        == error::too_many_requests_problem("request rate limit exceeded"@),
                })
        }
    }

    /// Admits a request or refuses it with the time to wait. Liveness probes
    /// never draw a token.
    pub fn enforce_rate_limit(
        &mut self,
        path: &str,
        trusted: Option<&[u8]>,
        authorization: Option<&[u8]>,
        now: u64,
    ) -> (r: Result<(), Throttled>)
        requires
            old(self).wf(),
        ensures
            final(self).wf(),
            old(self).enforced(
                *final(self),
                path@,
                auth::bytes_view(trusted),
                auth::bytes_view(authorization),
                now,
                r,
            ),
    {
        if text::same_text(path, "/healthz") {
            return Ok(());
        }
        let key = self.rate_key(trusted, authorization);
        match self.try_acquire(key, now) {
            Ok(()) => Ok(()),
            Err(wait) => Err(
                Throttled {
                    refusal: ApiHttpError::too_many_requests(
                        "request rate limit exceeded".to_owned(),
                    ),
                    retry_after: retry_after_seconds(wait),
                },
            ),
        }
    }
}

/// Waiting as long as a refusal says is enough: by then the bucket holds a
/// token again, if it can hold one at all.
pub proof fn the_announced_wait_is_enough(bucket: TokenBucket, later: u64, rps: u32, burst: u32)
    requires
        rps >= 1,
        burst >= 1,
        bucket.tokens < TOKEN,
        later >= bucket.last_refill + wait_for_token(bucket, rps),
    ensures
        refilled(bucket, later, rps, burst).tokens >= TOKEN,
{
    let missing = TOKEN - bucket.tokens;
    let wait = wait_for_token(bucket, rps);
    assert(wait * rps >= missing && wait >= 1) by (nonlinear_arith)
        requires
            missing >= 1,
            rps >= 1,
            wait == (missing + rps - 1) / (rps as int),
    ;
    let elapsed = later - bucket.last_refill;
    assert(elapsed * rps >= wait * rps) by (nonlinear_arith)
        requires
            elapsed >= wait,
            rps >= 1,
    ;
    assert(capacity(burst) >= TOKEN) by (nonlinear_arith)
        requires
            burst >= 1,
            capacity(burst) == burst * TOKEN,
            TOKEN == 1_000_000_000,
    ;
    assert(capacity(burst) <= u64::MAX) by (nonlinear_arith)
        requires
            burst <= u32::MAX,
            capacity(burst) == burst * TOKEN,
            TOKEN == 1_000_000_000,
    ;
}

/// A shorter wait is not: one nanosecond before the announced time the bucket
/// still lacks a token.
pub proof fn the_announced_wait_is_needed(bucket: TokenBucket, sooner: u64, rps: u32, burst: u32)
    requires
        rps >= 1,
        bucket.tokens < TOKEN,
        bucket.tokens <= capacity(burst),
        bucket.last_refill <= sooner < bucket.last_refill + wait_for_token(bucket, rps),
    ensures
        refilled(bucket, sooner, rps, burst).tokens < TOKEN,
{
    let missing = TOKEN - bucket.tokens;
    let wait = wait_for_token(bucket, rps);
    let elapsed = sooner - bucket.last_refill;
    assert(elapsed * rps < missing) by (nonlinear_arith)
        requires
            missing >= 1,
            rps >= 1,
            0 <= elapsed < wait,
            wait == (missing + rps - 1) / (rps as int),
    ;
    assert(elapsed * rps >= 0) by (nonlinear_arith)
        requires
            elapsed >= 0,
            rps >= 1,
    ;
    assert(capacity(burst) <= u64::MAX) by (nonlinear_arith)
        requires
            burst <= u32::MAX,
            capacity(burst) == burst * TOKEN,
            TOKEN == 1_000_000_000,
    ;
}

/// Admission is paid for: an admitted request costs its bucket a token, and
/// between two instants a bucket gains at most the rate times the time, so no
/// identity is ever served faster than its burst and its rate allow.
pub proof fn admission_is_paid_for(
    before: Buckets,
    after: Buckets,
    key: Identity,
    evicted: Option<Identity>,
    now: u64,
    rps: u32,
    burst: u32,
    r: Result<(), u64>,
)
    requires
        acquires(before, after, key, evicted, now, rps, burst, r),
        before.contains_key(drawn_key(before, key)),
        before[drawn_key(before, key)].tokens <= capacity(burst),
    ensures
        ({
            let used = drawn_key(before, key);
            let elapsed = if now >= before[used].last_refill {
                now - before[used].last_refill
            } else {
                0
            };
            &&& after[used].tokens + (if r is Ok {
                TOKEN as int
            } else {
                0
            }) <= before[used].tokens + elapsed * rps
            &&& after[used].tokens <= capacity(burst)
        }),
{
    assert(capacity(burst) <= u64::MAX) by (nonlinear_arith)
        requires
            burst <= u32::MAX,
            capacity(burst) == burst * TOKEN,
            TOKEN == 1_000_000_000,
    ;
    let used = drawn_key(before, key);
    let last = before[used].last_refill;
    assert(now >= last ==> (now - last) * rps >= 0) by (nonlinear_arith)
        requires
            rps >= 0,
    ;
}

/// The bucket after a request at `now` drew from it: a token is gone if there
/// was a whole one.
pub open spec fn after_draw(bucket: TokenBucket, now: u64, rps: u32, burst: u32) -> TokenBucket {
    let refilled = refilled(bucket, now, rps, burst);
    if refilled.tokens >= TOKEN {
        TokenBucket { tokens: (refilled.tokens - TOKEN) as u64, ..refilled }
    } else {
        refilled
    }
}

/// The bucket after requests at these instants.
pub open spec fn after_draws(
    bucket: TokenBucket,
    instants: Seq<u64>,
    rps: u32,
    burst: u32,
) -> TokenBucket
    decreases instants.len(),
{
    if instants.len() == 0 {
        bucket
    } else {
        after_draw(
            after_draws(bucket, instants.drop_last(), rps, burst),
            instants.last(),
            rps,
            burst,
        )
    }
}

/// How many of the requests at these instants are admitted.
pub open spec fn admitted(bucket: TokenBucket, instants: Seq<u64>, rps: u32, burst: u32) -> nat
    decreases instants.len(),
{
    if instants.len() == 0 {
        0
    } else {
        let before = after_draws(bucket, instants.drop_last(), rps, burst);
        admitted(bucket, instants.drop_last(), rps, burst) + (if refilled(
            before,
            instants.last(),
            rps,
            burst,
        ).tokens >= TOKEN {
            1nat
        } else {
            0
        })
    }
}

/// A request that draws from a bucket which is there leaves it as
/// [`after_draw`] says, and is admitted exactly when a token was there.
pub proof fn a_request_draws_once(
    before: Buckets,
    after: Buckets,
    key: Identity,
    evicted: Option<Identity>,
    now: u64,
    rps: u32,
    burst: u32,
    r: Result<(), u64>,
)
    requires
        acquires(before, after, key, evicted, now, rps, burst, r),
        before.contains_key(drawn_key(before, key)),
    ensures
        ({
            let used = drawn_key(before, key);
            &&& after[used] == after_draw(before[used], now, rps, burst)
            &&& r is Ok <==> refilled(before[used], now, rps, burst).tokens >= TOKEN
        }),
{
}

/// The limit holds over any history: however the requests on a bucket are
/// spaced, and even when the clock goes back in between, until `until` no more
/// of them are admitted than what the bucket held and what the rate has added
/// since pay for. From a full bucket that is its burst plus the rate times the
/// time.
pub proof fn no_history_beats_the_limit(
    bucket: TokenBucket,
    instants: Seq<u64>,
    until: u64,
    rps: u32,
    burst: u32,
)
    requires
        bucket.tokens <= capacity(burst),
        bucket.last_refill <= until,
        forall|i: int| 0 <= i < instants.len() ==> #[trigger] instants[i] <= until,
    ensures
        admitted(bucket, instants, rps, burst) * TOKEN <= bucket.tokens + (until
            - bucket.last_refill) * rps,
{
    draws_are_paid_for(bucket, instants, until, rps, burst);
    let left = after_draws(bucket, instants, rps, burst);
    assert((left.last_refill - bucket.last_refill) * rps <= (until - bucket.last_refill) * rps)
        by (nonlinear_arith)
        requires
            left.last_refill <= until,
            rps >= 0,
    ;
}

proof fn draws_are_paid_for(
    bucket: TokenBucket,
    instants: Seq<u64>,
    until: u64,
    rps: u32,
    burst: u32,
)
    requires
        bucket.tokens <= capacity(burst),
        bucket.last_refill <= until,
        forall|i: int| 0 <= i < instants.len() ==> #[trigger] instants[i] <= until,
    ensures
        ({
            let left = after_draws(bucket, instants, rps, burst);
            &&& left.tokens <= capacity(burst)
            &&& bucket.last_refill <= left.last_refill <= until
            &&& left.tokens + admitted(bucket, instants, rps, burst) * TOKEN <= bucket.tokens + (
            left.last_refill - bucket.last_refill) * rps
        }),
    decreases instants.len(),
{
    assert(capacity(burst) <= u64::MAX) by (nonlinear_arith)
        requires
            burst <= u32::MAX,
            capacity(burst) == burst * TOKEN,
            TOKEN == 1_000_000_000,
    ;
    if instants.len() == 0 {
        assert(0 * rps == 0) by (nonlinear_arith);
    } else {
        let earlier = instants.drop_last();
        assert forall|i: int| 0 <= i < earlier.len() implies #[trigger] earlier[i] <= until by {
            assert(earlier[i] == instants[i]);
        }
        draws_are_paid_for(bucket, earlier, until, rps, burst);
        let before = after_draws(bucket, earlier, rps, burst);
        let now = instants.last();
        assert(now == instants[instants.len() - 1]);
        assert(now > before.last_refill ==> (now - before.last_refill) * rps >= 0)
            by (nonlinear_arith)
            requires
                rps >= 0,
        ;
        assert((now - bucket.last_refill) * rps == (now - before.last_refill) * rps + (
        before.last_refill - bucket.last_refill) * rps) by (nonlinear_arith);
    }
}

/// A request touches no other identity's bucket, except that the shared bucket
/// may take the place of a fullest one when the table is full.
pub proof fn a_request_touches_its_own_bucket_only(
    before: Buckets,
    after: Buckets,
    key: Identity,
    evicted: Option<Identity>,
    now: u64,
    rps: u32,
    burst: u32,
    r: Result<(), u64>,
    other: Identity,
)
    requires
        acquires(before, after, key, evicted, now, rps, burst, r),
        other != drawn_key(before, key),
        evicted != Some(other),
    ensures
        after.contains_key(other) == before.contains_key(other),
        before.contains_key(other) ==> after[other] == before[other],
{
}

/// A credential that is not the configured one has no identity of its own,
/// whatever it says: all such requests draw from one shared bucket.
pub proof fn unverified_credentials_share_one_bucket(
    authorization: Option<Seq<u8>>,
    expected: Option<Seq<u8>>,
)
    requires
        expected is None || auth::bearer_token(authorization) is None || digest::sha256(
            vstd::utf8::encode_utf8(auth::bearer_token(authorization)->0),
        ) != expected->0,
    ensures
        request_identity(None, authorization, expected) is None,
{
}

} // verus!
