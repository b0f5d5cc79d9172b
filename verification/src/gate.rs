//! The gates that a request passes before its handler: shutdown, rate limit,
//! authentication and the asset path, in this order.
use vstd::prelude::*;
use vstd::string::*;
use crate::artifact;
use crate::auth;
use crate::error;
use crate::error::ApiHttpError;
use crate::rate_limit::{RateLimiter, Throttled};
use crate::shutdown;
use crate::text;

verus! {

/// Where a request ends up.
#[derive(Debug)]
pub enum Passage {
    /// It reaches its handler.
    Open,
    /// The server drains and takes no new work.
    Draining(ApiHttpError),
    /// Its identity has used up its rate.
    Throttled(Throttled),
    /// It carries no valid credential.
    Unauthorized(ApiHttpError),
    /// It names an asset unsafely.
    UnsafePath(ApiHttpError),
}

/// What the gates look at in a request.
#[derive(Debug)]
pub struct Incoming<'a> {
    pub method: &'a str,
    pub path: &'a str,
    pub authorization: Option<&'a [u8]>,
    /// The value of the trusted identity header.
    pub trusted: Option<&'a [u8]>,
    /// The host's judgement of the asset that the path names.
    pub asset_is_safe: bool,
}

/// The request names an asset unsafely.
pub open spec fn is_unsafe(request: Incoming) -> bool {
    request.method@ == "GET"@ && (artifact::asset_named(request.path@) matches Some(asset) && (
    !request.asset_is_safe || artifact::has_encoded_part(asset)))
}

/// The request passes authentication.
pub open spec fn is_authorized(request: Incoming, expected: Option<Seq<u8>>) -> bool {
    auth::authorized(
        expected,
        request.method@ == "GET"@,
        request.path@,
        auth::bytes_view(request.authorization),
    )
}

/// The gates behind the rate limit.
pub open spec fn passes_inner_gates(
    request: Incoming,
    expected: Option<Seq<u8>>,
    r: Passage,
) -> bool {
    if !is_authorized(request, expected) {
        r matches Passage::Unauthorized(refusal) && refusal@ == error::unauthorized_problem(
            "valid bearer token required"@,
        )
    } else if is_unsafe(request) {
        r matches Passage::UnsafePath(refusal) && refusal@ == error::bad_request_problem(
            "generator asset path contains an unsafe path component"@,
        )
    } else {
        r is Open
    }
}

fn inner_gates(request: &Incoming, expected: &Option<[u8; 32]>) -> (r: Passage)
    ensures
        passes_inner_gates(*request, auth::digest_view(*expected), r),
{
    let is_get = text::same_text(request.method, "GET");
    match auth::require_api_auth(expected, is_get, request.path, request.authorization) {
        Ok(()) => {},
        Err(refusal) => {
            return Passage::Unauthorized(refusal);
        },
    }
    match artifact::reject_unsafe_generator_asset_path(
        is_get,
        request.path,
        request.asset_is_safe,
    ) {
        Ok(()) => Passage::Open,
        Err(refusal) => Passage::UnsafePath(refusal),
    }
}

/// Takes a request through the gates. A drain refuses mutating requests before
/// anything else is looked at: neither a token is drawn nor a credential
/// compared. `limiter` is absent on an unthrottled server.
pub fn pass_gates(
    shutting_down: bool,
    limiter: &mut Option<RateLimiter>,
    now: u64,
    expected: &Option<[u8; 32]>,
    request: &Incoming,
) -> (r: Passage)
    requires
        *old(limiter) matches Some(limiter) ==> limiter.wf(),
    ensures
        shutdown::refused_by_drain(shutting_down, request.method@) ==> *final(limiter) == *old(
            limiter,
        ) && (r matches Passage::Draining(refusal) && refusal@ == error::unavailable_problem(
            "server is shutting down"@,
        )),
        !shutdown::refused_by_drain(shutting_down, request.method@) && *old(limiter) is None
            ==> *final(limiter) is None && passes_inner_gates(
            *request,
            auth::digest_view(*expected),
            r,
        ),
        !shutdown::refused_by_drain(shutting_down, request.method@) && *old(limiter) is Some
            ==> *final(limiter) is Some && (*final(limiter))->0.wf() && exists|
            limited: Result<(), Throttled>,
        |
            #[trigger] (*old(limiter))->0.enforced(
                (*final(limiter))->0,
                request.path@,
                auth::bytes_view(request.trusted),
                auth::bytes_view(request.authorization),
                now,
                limited,
            ) && (match limited {
                Err(refusal) => r == Passage::Throttled(refusal),
                Ok(()) => passes_inner_gates(*request, auth::digest_view(*expected), r),
            }),
{
    match shutdown::reject_mutating_requests_during_shutdown(shutting_down, request.method) {
        Ok(()) => {},
        Err(refusal) => {
            return Passage::Draining(refusal);
        },
    }
    match limiter.take() {
        None => inner_gates(request, expected),
        Some(mut bucketed) => {
            let ghost before = bucketed;
            let limited = bucketed.enforce_rate_limit(
                request.path,
                request.trusted,
                request.authorization,
                now,
            );
            assert(before.enforced(
                bucketed,
                request.path@,
                auth::bytes_view(request.trusted),
                auth::bytes_view(request.authorization),
                now,
                limited,
            ));
            *limiter = Some(bucketed);
            match limited {
                Ok(()) => inner_gates(request, expected),
                Err(refusal) => Passage::Throttled(refusal),
            }
        },
    }
}

} // verus!
