//! How often an identity may ask.
use vstd::prelude::*;
use vstd::arithmetic::div_mod::*;
use crate::digest;
use crate::environment::Setting;
use crate::header;
use crate::rate_limit;
use crate::rate_limit::{Buckets, Identity, RateLimiter, Throttled, TokenBucket};
use crate::text;

verus! {

/// What a bucket holds after a while: its tokens and what it gained since, in
/// billionths of a token, up to its burst.
pub open spec fn fill(bucket: TokenBucket, now: u64, rps: u32, burst: u32) -> int {
    let gained = if now > bucket.last_refill {
        bucket.tokens + (now - bucket.last_refill) * rps
    } else {
        bucket.tokens as int
    };
    if now > bucket.last_refill && gained > burst * 1_000_000_000 {
        burst * 1_000_000_000
    } else {
        gained
    }
}

/// A bucket gains the rate for each second that passes, and never more than
/// its burst; the clock never takes anything from it.
pub proof fn a_bucket_fills_at_its_rate(bucket: TokenBucket, now: u64, rps: u32, burst: u32)
    requires
        bucket.tokens <= burst * 1_000_000_000,
    ensures
        rate_limit::refilled(bucket, now, rps, burst).tokens == fill(bucket, now, rps, burst),
        rate_limit::refilled(bucket, now, rps, burst).last_refill == (if now > bucket.last_refill {
            now
        } else {
            bucket.last_refill
        }),
        fill(bucket, now, rps, burst) <= burst * 1_000_000_000,
{
    if now > bucket.last_refill {
        assert((now - bucket.last_refill) * rps >= 0) by (nonlinear_arith)
            requires
                now > bucket.last_refill,
        ;
    }
}

/// A request is admitted exactly where its bucket holds a whole token, which it
/// then pays; otherwise it is told the shortest wait after which one is there.
pub proof fn a_request_pays_one_token(
    before: Buckets,
    after: Buckets,
    key: Identity,
    evicted: Option<Identity>,
    now: u64,
    rps: u32,
    burst: u32,
    r: Result<(), u64>,
)
    requires
        rate_limit::acquires(before, after, key, evicted, now, rps, burst, r),
        before.contains_key(key),
        before[key].tokens <= burst * 1_000_000_000,
        rps >= 1,
    ensures
        ({
            let held = fill(before[key], now, rps, burst);
            &&& evicted is None
            &&& after.contains_key(key)
            &&& after.dom() == before.dom()
            &&& (r is Ok <==> held >= 1_000_000_000)
            &&& (r is Ok ==> after[key].tokens == held - 1_000_000_000)
            &&& (r matches Err(wait) ==> after[key].tokens == held && wait * rps >= 1_000_000_000
                - held && (wait - 1) * rps < 1_000_000_000 - held)
            &&& forall|other: Identity| #[trigger]
                before.contains_key(other) && other != key ==> after[other] == before[other]
        }),
{
    a_bucket_fills_at_its_rate(before[key], now, rps, burst);
    let bucket = rate_limit::refilled(before[key], now, rps, burst);
    assert(after.dom() =~= before.dom());
    if r is Err {
        a_wait_is_rounded_up(1_000_000_000 - bucket.tokens, rps as int);
    }
}

proof fn a_wait_is_rounded_up(lack: int, rate: int)
    requires
        lack > 0,
        rate >= 1,
    ensures
        ({
            let wait = (lack + rate - 1) / rate;
            wait * rate >= lack && (wait - 1) * rate < lack
        }),
{
    let sum = lack + rate - 1;
    let wait = sum / rate;
    lemma_fundamental_div_mod(sum, rate);
    lemma_mod_bound(sum, rate);
    assert(rate * wait == wait * rate) by (nonlinear_arith);
    assert((wait - 1) * rate == wait * rate - rate) by (nonlinear_arith);
}

/// An identity that asks for the first time, while there is room, starts with
/// its whole burst.
pub proof fn a_first_request_finds_a_full_bucket(
    before: Buckets,
    after: Buckets,
    key: Identity,
    evicted: Option<Identity>,
    now: u64,
    rps: u32,
    burst: u32,
    r: Result<(), u64>,
)
    requires
        rate_limit::acquires(before, after, key, evicted, now, rps, burst, r),
        !before.contains_key(key),
        before.len() < 4096,
    ensures
        evicted is None,
        r is Ok <==> burst >= 1,
        r is Ok ==> after == before.insert(
            key,
            TokenBucket {
                tokens: (burst * 1_000_000_000 - 1_000_000_000) as u64,
                last_refill: now,
            },
        ),
{
}

/// Once 4096 identities are known, a new one shares the common bucket, and the
/// common bucket itself takes the place of one with the most tokens.
pub proof fn new_identities_share_one_bucket_when_there_are_too_many(
    before: Buckets,
    after: Buckets,
    key: Identity,
    evicted: Option<Identity>,
    now: u64,
    rps: u32,
    burst: u32,
    r: Result<(), u64>,
)
    requires
        rate_limit::acquires(before, after, key, evicted, now, rps, burst, r),
        !before.contains_key(key),
        before.len() >= 4096,
    ensures
        key is Some ==> evicted is None && !after.contains_key(key) && after.contains_key(None),
        key is None ==> evicted is Some && before.contains_key(evicted->0) && !after.contains_key(
            evicted->0,
        ) && after.contains_key(None) && forall|other: Identity| #[trigger]
            before.contains_key(other) ==> before[other].tokens <= before[evicted->0].tokens,
{
}

/// A wait is announced in whole seconds: the least number of them that is long
/// enough, and at least one.
pub proof fn a_wait_is_announced_in_whole_seconds(wait_nanos: u64)
    ensures
        rate_limit::retry_seconds(wait_nanos) >= 1,
        rate_limit::retry_seconds(wait_nanos) * 1_000_000_000 >= wait_nanos,
        wait_nanos > 0 ==> (rate_limit::retry_seconds(wait_nanos) - 1) * 1_000_000_000
            < wait_nanos,
        wait_nanos == 0 ==> rate_limit::retry_seconds(wait_nanos) == 1,
{
}

/// The health check is never throttled and costs nothing; any other request
/// that is refused is told 429.
pub proof fn the_health_check_is_never_throttled(
    limiter: RateLimiter,
    after: RateLimiter,
    path: Seq<char>,
    trusted: Option<Seq<u8>>,
    authorization: Option<Seq<u8>>,
    now: u64,
    r: Result<(), Throttled>,
)
    requires
        limiter.enforced(after, path, trusted, authorization, now, r),
    ensures
        path == "/healthz"@ ==> r is Ok && after == limiter,
        r matches Err(throttled) ==> throttled.refusal@.status == 429 && throttled.retry_after
            >= 1,
        path != "/healthz"@ ==> after.rps() == limiter.rps() && after.burst() == limiter.burst(),
{
}

/// A request is counted for the identity that the trusted header names, or else
/// for the one credential that is known to be good; everyone else shares one
/// bucket.
pub proof fn a_request_is_counted_for_its_identity(
    trusted: Option<Seq<u8>>,
    authorization: Option<Seq<u8>>,
    expected: Option<Seq<u8>>,
    name: Seq<char>,
    token: Seq<char>,
)
    ensures
        trusted is Some && super::access::is_readable(trusted->0) && name.len() > 0
            && !super::texts::blank(name[0]) && !super::texts::blank(name.last())
            && trusted->0.map_values(|b: u8| b as char) == name ==> rate_limit::request_identity(
            trusted,
            authorization,
            expected,
        ) == Some(digest::sha256(vstd::utf8::encode_utf8(name))),
        trusted is None && authorization is Some && super::access::is_readable(authorization->0)
            && authorization->0.map_values(|b: u8| b as char) == "Bearer "@ + token
            ==> rate_limit::request_identity(trusted, authorization, expected) == (if expected
            == Some(digest::sha256(vstd::utf8::encode_utf8(token))) {
            expected
        } else {
            None
        }),
        trusted is None && authorization is None ==> rate_limit::request_identity(
            trusted,
            authorization,
            expected,
        ) is None,
        expected is None && trusted is None ==> rate_limit::request_identity(
            trusted,
            authorization,
            expected,
        ) is None,
        trusted is Some && (!super::access::is_readable(trusted->0) || forall|i: int|
            0 <= i < trusted->0.len() ==> #[trigger] trusted->0[i] == 32 || trusted->0[i] == 9)
            ==> rate_limit::request_identity(trusted, authorization, expected)
            == rate_limit::request_identity(None, authorization, expected),
{
    if trusted is Some {
        let bytes = trusted->0;
        super::access::readable_bytes(bytes);
        if forall|i: int| 0 <= i < bytes.len() ==> #[trigger] bytes[i] == 32 || bytes[i] == 9 {
            let chars = header::ascii_text(bytes);
            super::texts::trimming_takes_blanks_off_the_ends(chars);
            let (a, b) = choose|a: int, b: int| #[trigger]
                super::texts::is_core(chars, a, b) && text::trimmed(chars) == chars.subrange(a, b);
            if a < b {
                assert(chars[a] == bytes[a] as char);
                assert(super::texts::blank(chars[a]));
            }
        }
    }
    if trusted is Some && super::access::is_readable(trusted->0) && name.len() > 0
        && !super::texts::blank(name[0]) && !super::texts::blank(name.last())
        && trusted->0.map_values(|b: u8| b as char) == name {
        let bytes = trusted->0;
        assert(header::all_visible(bytes)) by {
            assert forall|i: int| 0 <= i < bytes.len() implies header::visible(
                #[trigger] bytes[i],
            ) by {
                assert((32 <= bytes[i] < 127) || bytes[i] == 9);
            }
        }
        assert(header::ascii_text(bytes) == name);
        text::trimmed_keeps_tight(name);
    }
    if authorization is Some {
        super::access::a_credential_follows_its_scheme(authorization->0, token);
    }
}

/// A header is believed only where the server was told its name.
pub proof fn an_unnamed_header_is_not_believed(value: Option<Seq<u8>>, name: Seq<char>)
    ensures
        rate_limit::trusted_value(None, value) is None,
        rate_limit::trusted_value(Some(name), value) == value,
{
}

/// Throttling is configured by a rate, and by a burst that is the rate where
/// it is not set; without either there is none, and a burst alone is refused.
pub proof fn throttling_is_configured(rate: nat, most: nat, identity: Setting)
    ensures
        rate_limit::rate_limit_policy(Setting::Unset, Setting::Unset, identity) == Ok::<
            Option<rate_limit::PolicyModel>,
            Seq<char>,
        >(None),
        rate_limit::rate_limit_policy(
            Setting::Unset,
            Setting::Text(text::decimal(most)),
            identity,
        ) is Err,
        rate == 0 || rate > u32::MAX ==> rate_limit::rate_limit_policy(
            Setting::Text(text::decimal(rate)),
            Setting::Unset,
            identity,
        ) is Err,
        most == 0 || most > u32::MAX ==> rate_limit::rate_limit_policy(
            Setting::Text(text::decimal(rate)),
            Setting::Text(text::decimal(most)),
            identity,
        ) is Err,
        1 <= rate <= u32::MAX ==> ({
            let set = rate_limit::rate_limit_policy(
                Setting::Text(text::decimal(rate)),
                Setting::Unset,
                Setting::Unset,
            );
            set is Ok && set->Ok_0 is Some && set->Ok_0->0.rps == rate && set->Ok_0->0.burst == rate
                && set->Ok_0->0.trusted_identity_header is None
        }),
        1 <= rate <= u32::MAX && 1 <= most <= u32::MAX ==> ({
            let set = rate_limit::rate_limit_policy(
                Setting::Text(text::decimal(rate)),
                Setting::Text(text::decimal(most)),
                Setting::Unset,
            );
            set is Ok && set->Ok_0 is Some && set->Ok_0->0.rps == rate && set->Ok_0->0.burst == most
        }),
        rate_limit::rate_limit_policy(
            Setting::Text(text::decimal(rate)),
            Setting::Text(text::decimal(most)),
            Setting::NotText,
        ) is Err,
{
    super::texts::numbers_are_read_back(rate, u32::MAX as nat, Seq::empty());
    super::texts::numbers_are_read_back(most, u32::MAX as nat, Seq::empty());
}

/// The name of an identity header is taken in small letters; an empty name, the
/// header of the credentials themselves, and a name with a space or a colon
/// are refused.
pub proof fn an_identity_header_is_a_plain_name(name: Seq<char>)
    requires
        name.len() > 0,
        !super::texts::blank(name[0]),
        !super::texts::blank(name.last()),
    ensures
        rate_limit::identity_header(name) is None <==> text::lower(name) == "authorization"@
            || name.contains(' ') || name.contains(':'),
        rate_limit::identity_header(name) matches Some(taken) ==> taken == text::lower(name),
        rate_limit::identity_header(Seq::empty()) is None,
{
    text::trimmed_keeps_tight(name);
    let lower = text::lower(name);
    if name.contains(' ') {
        let i = choose|i: int| 0 <= i < name.len() && name[i] == ' ';
        assert(lower[i] == ' ');
    }
    if name.contains(':') {
        let i = choose|i: int| 0 <= i < name.len() && name[i] == ':';
        assert(lower[i] == ':');
    }
    if lower.contains(' ') {
        let i = choose|i: int| 0 <= i < lower.len() && lower[i] == ' ';
        assert(name[i] == ' ');
    }
    if lower.contains(':') {
        let i = choose|i: int| 0 <= i < lower.len() && lower[i] == ':';
        assert(name[i] == ':');
    }
    assert(text::trimmed(Seq::<char>::empty()) =~= Seq::<char>::empty());
    assert(text::lower(Seq::<char>::empty()).len() == 0);
}

} // verus!
