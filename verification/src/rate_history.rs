//! What the limiter promises over any course of requests, of any number of
//! identities in any order.
use vstd::prelude::*;
use crate::rate_limit;
use crate::rate_limit::{Buckets, Identity, TokenBucket};

verus! {

/// A request that reached the limiter: whose it was, when, and the answer.
pub struct Call {
    pub key: Identity,
    pub now: u64,
    pub result: Result<(), u64>,
}

/// The limiter answered the call and went from one state to the next.
pub open spec fn served(before: Buckets, after: Buckets, call: Call, rps: u32, burst: u32) -> bool {
    exists|evicted: Option<Identity>| #[trigger]
        rate_limit::acquires(before, after, call.key, evicted, call.now, rps, burst, call.result)
}

/// The states of a limiter that served these calls one after the other: the
/// first is the state it started in, and each call leads to the next.
pub open spec fn course(states: Seq<Buckets>, calls: Seq<Call>, rps: u32, burst: u32) -> bool {
    &&& states.len() == calls.len() + 1
    &&& forall|i: int|
        #![trigger calls[i]]
        0 <= i < calls.len() ==> served(states[i], states[i + 1], calls[i], rps, burst)
}

/// The identities are those of the start and of the calls, and there are no
/// more of them than buckets are kept.
pub open spec fn tracked_all(used: Set<Identity>, start: Buckets, calls: Seq<Call>) -> bool {
    &&& used.finite()
    &&& used.len() <= rate_limit::MAX_TRACKED_BUCKETS
    &&& start.dom().subset_of(used)
    &&& forall|i: int| 0 <= i < calls.len() ==> used.contains((#[trigger] calls[i]).key)
}

/// When the calls of one identity came.
pub open spec fn instants_of(calls: Seq<Call>, key: Identity) -> Seq<u64>
    decreases calls.len(),
{
    if calls.len() == 0 {
        Seq::empty()
    } else {
        let earlier = instants_of(calls.drop_last(), key);
        if calls.last().key == key {
            earlier.push(calls.last().now)
        } else {
            earlier
        }
    }
}

/// The wait that an answer announces; none where the call is admitted.
pub open spec fn wait_of(result: Result<(), u64>) -> Option<u64> {
    match result {
        Ok(()) => None,
        Err(wait) => Some(wait),
    }
}

/// What the calls of one identity were answered.
pub open spec fn answers_to(calls: Seq<Call>, key: Identity) -> Seq<Option<u64>>
    decreases calls.len(),
{
    if calls.len() == 0 {
        Seq::empty()
    } else {
        let earlier = answers_to(calls.drop_last(), key);
        if calls.last().key == key {
            earlier.push(wait_of(calls.last().result))
        } else {
            earlier
        }
    }
}

/// What a draw at `now` is answered.
pub open spec fn answer(bucket: TokenBucket, now: u64, rps: u32, burst: u32) -> Option<u64> {
    let filled = rate_limit::refilled(bucket, now, rps, burst);
    if filled.tokens >= rate_limit::TOKEN {
        None
    } else {
        Some(rate_limit::wait_for_token(filled, rps) as u64)
    }
}

/// What draws at these instants are answered, from a bucket that nothing else
/// draws from.
pub open spec fn answers(
    bucket: TokenBucket,
    instants: Seq<u64>,
    rps: u32,
    burst: u32,
) -> Seq<Option<u64>>
    decreases instants.len(),
{
    if instants.len() == 0 {
        Seq::empty()
    } else {
        let before = rate_limit::after_draws(bucket, instants.drop_last(), rps, burst);
        answers(bucket, instants.drop_last(), rps, burst).push(
            answer(before, instants.last(), rps, burst),
        )
    }
}

/// The bucket that an identity starts with: the one it has, or a full one at
/// its first call.
pub open spec fn origin(
    start: Buckets,
    key: Identity,
    instants: Seq<u64>,
    burst: u32,
) -> TokenBucket {
    if start.contains_key(key) {
        start[key]
    } else {
        rate_limit::full_bucket(instants[0], burst)
    }
}

/// How many calls of one identity were admitted at instants from `from` on for
/// `span` nanoseconds.
pub open spec fn admitted_within(calls: Seq<Call>, key: Identity, from: u64, span: nat) -> nat
    decreases calls.len(),
{
    if calls.len() == 0 {
        0
    } else {
        let call = calls.last();
        admitted_within(calls.drop_last(), key, from, span) + (if call.key == key && from
            <= call.now <= from + span && call.result is Ok {
            1nat
        } else {
            0
        })
    }
}

/// After a call of the identity beyond `end` none comes at or before it: what
/// a clock that never goes back gives for every `end`.
pub open spec fn never_back_before(calls: Seq<Call>, key: Identity, end: int) -> bool {
    forall|i: int, j: int|
        0 <= i < j < calls.len() && (#[trigger] calls[i]).key == key && (#[trigger] calls[j]).key
            == key && calls[i].now > end ==> calls[j].now > end
}

proof fn capacity_fits(burst: u32)
    ensures
        0 <= rate_limit::capacity(burst) <= u64::MAX,
{
    assert(0 <= rate_limit::capacity(burst) <= u64::MAX) by (nonlinear_arith)
        requires
            0 <= burst <= u32::MAX,
            rate_limit::capacity(burst) == burst * rate_limit::TOKEN,
            rate_limit::TOKEN == 1_000_000_000,
    ;
}

/// A refusal never announces more than the time in which the rate earns one
/// token, rounded up.
pub proof fn a_wait_is_at_most_one_token_long(bucket: TokenBucket, rps: u32)
    requires
        rps >= 1,
    ensures
        (rate_limit::wait_for_token(bucket, rps) - 1) * rps < rate_limit::TOKEN,
        bucket.tokens < rate_limit::TOKEN ==> 1 <= rate_limit::wait_for_token(bucket, rps)
            <= rate_limit::TOKEN,
{
    let wait = rate_limit::wait_for_token(bucket, rps);
    let missing = rate_limit::TOKEN - bucket.tokens;
    assert((wait - 1) * rps < missing) by (nonlinear_arith)
        requires
            rps >= 1,
            wait == (missing + rps - 1) / (rps as int),
    ;
    if bucket.tokens < rate_limit::TOKEN {
        assert(1 <= wait <= missing) by (nonlinear_arith)
            requires
                rps >= 1,
                missing >= 1,
                wait == (missing + rps - 1) / (rps as int),
        ;
    }
}

/// A call draws from its own bucket and from no other.
proof fn a_call_is_its_own(
    before: Buckets,
    after: Buckets,
    call: Call,
    used: Set<Identity>,
    rps: u32,
    burst: u32,
)
    requires
        served(before, after, call, rps, burst),
        rps >= 1,
        used.finite(),
        used.len() <= rate_limit::MAX_TRACKED_BUCKETS,
        before.dom().subset_of(used),
        used.contains(call.key),
    ensures
        after.dom().subset_of(used),
        after.contains_key(call.key),
        ({
            let bucket = if before.contains_key(call.key) {
                before[call.key]
            } else {
                rate_limit::full_bucket(call.now, burst)
            };
            &&& after[call.key] == rate_limit::after_draw(bucket, call.now, rps, burst)
            &&& wait_of(call.result) == answer(bucket, call.now, rps, burst)
        }),
        forall|other: Identity|
            other != call.key ==> (#[trigger] after.contains_key(other) <==> before.contains_key(
                other,
            )) && (before.contains_key(other) ==> after[other] == before[other]),
{
    let evicted = choose|evicted: Option<Identity>| #[trigger]
        rate_limit::acquires(before, after, call.key, evicted, call.now, rps, burst, call.result);
    if !before.contains_key(call.key) {
        assert(before.dom().subset_of(used.remove(call.key)));
        vstd::set_lib::lemma_len_subset(before.dom(), used.remove(call.key));
    }
    assert(rate_limit::drawn_key(before, call.key) == call.key);
    assert(evicted is None);
    let bucket = if before.contains_key(call.key) {
        before[call.key]
    } else {
        rate_limit::full_bucket(call.now, burst)
    };
    let filled = rate_limit::refilled(bucket, call.now, rps, burst);
    a_wait_is_at_most_one_token_long(filled, rps);
}

proof fn earlier_course(
    states: Seq<Buckets>,
    calls: Seq<Call>,
    used: Set<Identity>,
    rps: u32,
    burst: u32,
)
    requires
        course(states, calls, rps, burst),
        tracked_all(used, states[0], calls),
        calls.len() > 0,
    ensures
        course(states.drop_last(), calls.drop_last(), rps, burst),
        tracked_all(used, states.drop_last()[0], calls.drop_last()),
        served(states.drop_last().last(), states.last(), calls.last(), rps, burst),
        used.contains(calls.last().key),
{
    let (s, c) = (states.drop_last(), calls.drop_last());
    assert forall|i: int| #![trigger c[i]] 0 <= i < c.len() implies served(
        s[i],
        s[i + 1],
        c[i],
        rps,
        burst,
    ) && used.contains(c[i].key) by {
        assert(c[i] == calls[i]);
    }
    let last = calls[calls.len() - 1];
    assert(last == calls.last());
}

/// Identities do not touch each other: as long as every identity has a bucket
/// of its own, what the calls of one are answered depends on when they came
/// and on the bucket it started with, whoever else calls in between.
pub proof fn identities_are_isolated(
    states: Seq<Buckets>,
    calls: Seq<Call>,
    used: Set<Identity>,
    key: Identity,
    rps: u32,
    burst: u32,
)
    requires
        course(states, calls, rps, burst),
        tracked_all(used, states[0], calls),
        rps >= 1,
    ensures
        ({
            let instants = instants_of(calls, key);
            let own = origin(states[0], key, instants, burst);
            let end = states.last();
            &&& answers_to(calls, key) == answers(own, instants, rps, burst)
            &&& end.dom().subset_of(used)
            &&& end.contains_key(key) <==> states[0].contains_key(key) || instants.len() > 0
            &&& end.contains_key(key) ==> end[key] == rate_limit::after_draws(
                own,
                instants,
                rps,
                burst,
            )
        }),
    decreases calls.len(),
{
    if calls.len() > 0 {
        earlier_course(states, calls, used, rps, burst);
        let (s, c) = (states.drop_last(), calls.drop_last());
        identities_are_isolated(s, c, used, key, rps, burst);
        a_call_is_its_own(s.last(), states.last(), calls.last(), used, rps, burst);
        let earlier = instants_of(c, key);
        let instants = instants_of(calls, key);
        if calls.last().key == key {
            assert(instants.drop_last() == earlier);
            assert(instants.last() == calls.last().now);
            if earlier.len() > 0 {
                assert(instants[0] == earlier[0]);
            } else {
                assert(rate_limit::after_draws(
                    origin(states[0], key, instants, burst),
                    earlier,
                    rps,
                    burst,
                ) == origin(states[0], key, instants, burst));
                assert(answers(
                    origin(states[0], key, instants, burst),
                    earlier,
                    rps,
                    burst,
                ) == Seq::<Option<u64>>::empty());
                assert(answers_to(c, key) == Seq::<Option<u64>>::empty());
            }
        }
    }
}

/// A refill never takes tokens away and never goes beyond the capacity.
proof fn refills_stay_in_range(bucket: TokenBucket, now: u64, rps: u32, burst: u32)
    requires
        bucket.tokens <= rate_limit::capacity(burst),
    ensures
        ({
            let filled = rate_limit::refilled(bucket, now, rps, burst);
            &&& bucket.tokens <= filled.tokens <= rate_limit::capacity(burst)
            &&& now <= bucket.last_refill ==> filled == bucket
            &&& now > bucket.last_refill ==> filled.last_refill == now && filled.tokens
                <= bucket.tokens + (now - bucket.last_refill) * rps
        }),
{
    capacity_fits(burst);
    assert(now > bucket.last_refill ==> (now - bucket.last_refill) * rps >= 0)
        by (nonlinear_arith)
        requires
            rps >= 0,
    ;
}

proof fn a_full_bucket_pays_its_burst(
    bucket: TokenBucket,
    instants: Seq<u64>,
    rps: u32,
    burst: u32,
)
    requires
        bucket.tokens == rate_limit::capacity(burst),
    ensures
        ({
            let left = rate_limit::after_draws(bucket, instants, rps, burst);
            rate_limit::capacity(burst) - instants.len() * rate_limit::TOKEN <= left.tokens
                <= rate_limit::capacity(burst)
        }),
        answers(bucket, instants, rps, burst).len() == instants.len(),
        forall|j: int|
            0 <= j < instants.len() && j < burst ==> (#[trigger] answers(
                bucket,
                instants,
                rps,
                burst,
            )[j]) is None,
    decreases instants.len(),
{
    if instants.len() > 0 {
        let earlier = instants.drop_last();
        a_full_bucket_pays_its_burst(bucket, earlier, rps, burst);
        let before = rate_limit::after_draws(bucket, earlier, rps, burst);
        refills_stay_in_range(before, instants.last(), rps, burst);
        let n = earlier.len() as int;
        assert(rate_limit::capacity(burst) - n * rate_limit::TOKEN >= rate_limit::TOKEN
            || n >= burst) by (nonlinear_arith)
            requires
                rate_limit::capacity(burst) == burst * rate_limit::TOKEN,
                rate_limit::TOKEN == 1_000_000_000,
        ;
        assert((n + 1) * rate_limit::TOKEN == n * rate_limit::TOKEN + rate_limit::TOKEN)
            by (nonlinear_arith);
        let all = answers(bucket, instants, rps, burst);
        let some = answers(bucket, earlier, rps, burst);
        assert forall|j: int| 0 <= j < instants.len() && j < burst implies (#[trigger] all[j]) is None by {
            if j < n {
                assert(all[j] == some[j]);
            }
        }
    }
}

/// An identity that was never seen before is admitted at least as many times
/// as its burst, whoever else calls in between.
pub proof fn a_new_identity_has_its_burst(
    states: Seq<Buckets>,
    calls: Seq<Call>,
    used: Set<Identity>,
    key: Identity,
    rps: u32,
    burst: u32,
)
    requires
        course(states, calls, rps, burst),
        tracked_all(used, states[0], calls),
        rps >= 1,
        !states[0].contains_key(key),
    ensures
        answers_to(calls, key).len() == instants_of(calls, key).len(),
        forall|j: int|
            0 <= j < answers_to(calls, key).len() && j < burst ==> (#[trigger] answers_to(
                calls,
                key,
            )[j]) is None,
{
    identities_are_isolated(states, calls, used, key, rps, burst);
    let instants = instants_of(calls, key);
    capacity_fits(burst);
    a_full_bucket_pays_its_burst(origin(states[0], key, instants, burst), instants, rps, burst);
}

/// The part of the span that a bucket has been refilled for.
spec fn paid_time(bucket: TokenBucket, from: u64, span: nat) -> int {
    if bucket.last_refill <= from {
        0
    } else if bucket.last_refill >= from + span {
        span as int
    } else {
        bucket.last_refill - from
    }
}

/// One of the calls of the identity came after `end`.
spec fn has_passed(calls: Seq<Call>, key: Identity, end: int) -> bool {
    exists|i: int| 0 <= i < calls.len() && (#[trigger] calls[i]).key == key && calls[i].now > end
}

proof fn admissions_are_paid_for(
    states: Seq<Buckets>,
    calls: Seq<Call>,
    used: Set<Identity>,
    key: Identity,
    from: u64,
    span: nat,
    rps: u32,
    burst: u32,
)
    requires
        course(states, calls, rps, burst),
        tracked_all(used, states[0], calls),
        rps >= 1,
        states[0].contains_key(key) ==> states[0][key].tokens <= rate_limit::capacity(burst),
        never_back_before(calls, key, from + span),
    ensures
        ({
            let count = admitted_within(calls, key, from, span);
            let end = states.last();
            let bucket = end[key];
            &&& end.dom().subset_of(used)
            &&& count * rate_limit::TOKEN <= rate_limit::capacity(burst) + span * rps
            &&& !end.contains_key(key) ==> count == 0
            &&& end.contains_key(key) ==> bucket.tokens <= rate_limit::capacity(burst)
            &&& end.contains_key(key) && !has_passed(calls, key, from + span) ==> {
                &&& count * rate_limit::TOKEN + bucket.tokens <= rate_limit::capacity(burst)
                    + paid_time(bucket, from, span) * rps
                &&& bucket.last_refill < from ==> count == 0
            }
        }),
    decreases calls.len(),
{
    capacity_fits(burst);
    assert(span * rps >= 0) by (nonlinear_arith)
        requires
            span >= 0,
            rps >= 0,
    ;
    if calls.len() == 0 {
        if states[0].contains_key(key) {
            let paid = paid_time(states[0][key], from, span);
            assert(paid * rps >= 0) by (nonlinear_arith)
                requires
                    paid >= 0,
                    rps >= 0,
            ;
        }
    } else {
        earlier_course(states, calls, used, rps, burst);
        let (s, c) = (states.drop_last(), calls.drop_last());
        assert forall|i: int, j: int|
            0 <= i < j < c.len() && (#[trigger] c[i]).key == key && (#[trigger] c[j]).key == key
                && c[i].now > from + span implies c[j].now > from + span by {
            assert(c[i] == calls[i] && c[j] == calls[j]);
        }
        admissions_are_paid_for(s, c, used, key, from, span, rps, burst);
        let (before, after) = (s.last(), states.last());
        let call = calls.last();
        a_call_is_its_own(before, after, call, used, rps, burst);
        if has_passed(c, key, from + span) {
            let i = choose|i: int|
                0 <= i < c.len() && (#[trigger] c[i]).key == key && c[i].now > from + span;
            assert(calls[i] == c[i]);
            assert(has_passed(calls, key, from + span));
            if call.key == key {
                assert(calls[calls.len() - 1] == call);
                assert(call.now > from + span);
            }
        }
        if call.key != key {
            if !has_passed(calls, key, from + span) && has_passed(c, key, from + span) {
                assert(false);
            }
        } else {
            assert(calls[calls.len() - 1] == call);
            let bucket = if before.contains_key(key) {
                before[key]
            } else {
                rate_limit::full_bucket(call.now, burst)
            };
            refills_stay_in_range(bucket, call.now, rps, burst);
            if call.now > from + span {
                assert(has_passed(calls, key, from + span));
            } else {
                assert(!has_passed(c, key, from + span));
                a_draw_is_paid_for(
                    bucket,
                    call.now,
                    admitted_within(c, key, from, span),
                    from,
                    span,
                    rps,
                    burst,
                );
            }
        }
    }
}

/// One draw within or before the span keeps the account.
proof fn a_draw_is_paid_for(
    bucket: TokenBucket,
    now: u64,
    count: nat,
    from: u64,
    span: nat,
    rps: u32,
    burst: u32,
)
    requires
        bucket.tokens <= rate_limit::capacity(burst),
        now <= from + span,
        count * rate_limit::TOKEN + bucket.tokens <= rate_limit::capacity(burst) + paid_time(
            bucket,
            from,
            span,
        ) * rps || count == 0,
        bucket.last_refill < from ==> count == 0,
    ensures
        ({
            let admitted = answer(bucket, now, rps, burst) is None;
            let total = count + (if admitted && from <= now {
                1nat
            } else {
                0
            });
            let left = rate_limit::after_draw(bucket, now, rps, burst);
            &&& total * rate_limit::TOKEN + left.tokens <= rate_limit::capacity(burst) + paid_time(
                left,
                from,
                span,
            ) * rps
            &&& total * rate_limit::TOKEN <= rate_limit::capacity(burst) + span * rps
            &&& left.tokens <= rate_limit::capacity(burst)
            &&& left.last_refill < from ==> total == 0
        }),
{
    refills_stay_in_range(bucket, now, rps, burst);
    let left = rate_limit::after_draw(bucket, now, rps, burst);
    let (paid, later) = (paid_time(bucket, from, span), paid_time(left, from, span));
    assert((count + 1) * rate_limit::TOKEN == count * rate_limit::TOKEN + rate_limit::TOKEN)
        by (nonlinear_arith);
    assert(0 <= later * rps <= span * rps) by (nonlinear_arith)
        requires
            0 <= later <= span,
            rps >= 0,
    ;
    assert(0 <= paid * rps) by (nonlinear_arith)
        requires
            0 <= paid,
            rps >= 0,
    ;
    if now > bucket.last_refill && bucket.last_refill >= from {
        let gained = now - bucket.last_refill;
        assert(later == paid + gained);
        assert(later * rps == paid * rps + gained * rps) by (nonlinear_arith)
            requires
                later == paid + gained,
        ;
    }
}

/// The limit: within any span of time an identity is admitted at most its
/// burst and what the rate earns in that time, however many others call in
/// between. Tokens are billionths and instants nanoseconds, so that `span`
/// nanoseconds earn `span * rps` units. A clock that goes back into the span
/// after it has passed its end is left out.
pub proof fn no_identity_beats_the_limit(
    states: Seq<Buckets>,
    calls: Seq<Call>,
    used: Set<Identity>,
    key: Identity,
    from: u64,
    span: nat,
    rps: u32,
    burst: u32,
)
    requires
        course(states, calls, rps, burst),
        tracked_all(used, states[0], calls),
        rps >= 1,
        states[0].contains_key(key) ==> states[0][key].tokens <= rate_limit::capacity(burst),
        never_back_before(calls, key, from + span),
    ensures
        admitted_within(calls, key, from, span) * rate_limit::TOKEN <= rate_limit::capacity(burst)
            + span * rps,
{
    admissions_are_paid_for(states, calls, used, key, from, span, rps, burst);
}

} // verus!
