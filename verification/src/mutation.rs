//! Requests that change a run: what identifies them, what they may execute
//! under, and how they are answered.
use vstd::prelude::*;
use vstd::string::*;
use crate::error;
use crate::error::{ApiError, ApiHttpError, ProblemFieldError, ProblemModel};
use crate::etag;
use crate::etag::Reply;
use crate::text;

verus! {

/// The answer to a request for something that is not there.
pub open spec fn not_found(detail: Seq<char>, instance: Seq<char>) -> ProblemModel {
    ProblemModel {
        instance,
        ..error::problem(404, "Resource not found"@, "not_found"@, detail, seq![])
    }
}

fn refuse_route(method: &str, path: &str) -> (r: ApiHttpError)
    ensures
        r@ == not_found("route `"@ + method@ + " "@ + path@ + "` was not found"@, path@),
{
    let mut detail = "route `".to_owned();
    detail.append(method);
    detail.append(" ");
    detail.append(path);
    detail.append("` was not found");
    let none: Vec<ProblemFieldError> = Vec::new();
    assert(error::field_errors(none@) =~= Seq::<(Seq<char>, Seq<char>)>::empty());
    ApiHttpError::new(404, "Resource not found", "not_found", detail, path, none)
}

/// The answer to a request that no route takes.
pub fn dispatch_fallback(method: &str, path: &str) -> (r: ApiHttpError)
    ensures
        r@ == not_found("route `"@ + method@ + " "@ + path@ + "` was not found"@, path@),
{
    refuse_route(method, path)
}

/// The run that a path segment asks to cancel, if it does: `{run id}:cancel`.
pub open spec fn run_to_cancel(segment: Seq<char>) -> Option<Seq<char>> {
    let at = segment.len() - ":cancel"@.len();
    if at > 0 && segment.skip(at) == ":cancel"@ {
        Some(segment.take(at))
    } else {
        None
    }
}

/// Reads the run to cancel from the last segment of the path.
pub fn cancel_run_from_path(segment: &str) -> (r: Result<String, ApiHttpError>)
    ensures
        match run_to_cancel(segment@) {
            Some(id) => r matches Ok(run) && run@ == id,
            None => r matches Err(refusal) && refusal@ == not_found(
                "route `POST /api/runs/"@ + segment@ + "` was not found"@,
                "/api/runs/"@ + segment@,
            ),
        },
{
    let chars = text::chars_of(segment);
    let suffix = text::chars_of(":cancel");
    proof {
        reveal_strlit(":cancel");
        assert(suffix@.len() == 7);
    }
    if chars.len() > 7 {
        let at: usize = chars.len() - 7;
        let found = text::matches_at(&chars, &suffix, at);
        assert(segment@.skip(at as int) =~= segment@.subrange(at as int, at + 7));
        if found {
            let id = text::text_between(&chars, 0, at);
            assert(id@ =~= segment@.take(at as int));
            return Ok(id);
        }
    }
    let mut path = "/api/runs/".to_owned();
    path.append(segment);
    let refusal = refuse_route("POST", path.as_str());
    proof {
        reveal_strlit("route `POST /api/runs/");
        reveal_strlit("route `");
        reveal_strlit("POST");
        reveal_strlit(" ");
        reveal_strlit("/api/runs/");
        assert("route `"@ + "POST"@ + " "@ + ("/api/runs/"@ + segment@) + "` was not found"@
            =~= "route `POST /api/runs/"@ + segment@ + "` was not found"@);
    }
    Err(refusal)
}

/// What identifies the content of an answer or a confirmation: the question,
/// a zero byte, and the payload.
pub open spec fn action_content(question_id: Seq<char>, payload: Seq<u8>) -> Seq<u8> {
    vstd::utf8::encode_utf8(question_id).push(0) + payload
}

/// The content of an answer or a confirmation, for the comparison of retries.
pub fn action_body(question_id: &str, payload: &Vec<u8>) -> (r: Vec<u8>)
    ensures
        r@ == action_content(question_id@, payload@),
{
    let mut body: Vec<u8> = Vec::new();
    let id = question_id.as_bytes();
    let mut i: usize = 0;
    while i < id.len()
        invariant
            i <= id@.len(),
            body@ == id@.take(i as int),
        decreases id.len() - i,
    {
        body.push(id[i]);
        i += 1;
        assert(id@.take(i as int) =~= id@.take(i - 1).push(id@[i - 1]));
    }
    assert(id@.take(i as int) =~= id@);
    body.push(0);
    let ghost head = body@;
    let mut k: usize = 0;
    assert(head + payload@.take(0) =~= head);
    while k < payload.len()
        invariant
            k <= payload@.len(),
            body@ == head + payload@.take(k as int),
        decreases payload.len() - k,
    {
        body.push(payload[k]);
        k += 1;
        assert(head + payload@.take(k as int) =~= (head + payload@.take(k - 1)).push(
            payload@[k - 1],
        ));
    }
    assert(payload@.take(k as int) =~= payload@);
    body
}

/// Where no id holds a zero byte, different questions or different payloads
/// never have the same content: a key cannot be replayed across questions.
pub proof fn contents_stay_apart(
    question: Seq<char>,
    payload: Seq<u8>,
    other_question: Seq<char>,
    other_payload: Seq<u8>,
)
    requires
        !vstd::utf8::encode_utf8(question).contains(0u8),
        !vstd::utf8::encode_utf8(other_question).contains(0u8),
        action_content(question, payload) == action_content(other_question, other_payload),
    ensures
        vstd::utf8::encode_utf8(question) == vstd::utf8::encode_utf8(other_question),
        payload == other_payload,
{
    let (a, b) = (vstd::utf8::encode_utf8(question), vstd::utf8::encode_utf8(other_question));
    let (x, y) = (a.push(0) + payload, b.push(0) + other_payload);
    assert(x[a.len() as int] == 0);
    assert(y[b.len() as int] == 0);
    if a.len() < b.len() {
        assert(y[a.len() as int] == b[a.len() as int]);
        assert(b.contains(b[a.len() as int]));
    }
    if b.len() < a.len() {
        assert(x[b.len() as int] == a[b.len() as int]);
        assert(a.contains(a[b.len() as int]));
    }
    assert(a =~= b) by {
        assert forall|i: int| 0 <= i < a.len() implies a[i] == b[i] by {
            assert(x[i] == a[i] && y[i] == b[i]);
        }
    }
    assert(payload =~= x.skip((a.len() + 1) as int));
    assert(other_payload =~= y.skip((b.len() + 1) as int));
}

/// Whether a mutation of an existing run may execute: only under a claim that
/// is reserved for that run.
pub fn check_target_reservation(reserved: &Option<String>, run_id: &str) -> (r: Result<
    (),
    ApiError,
>)
    ensures
        r is Ok <==> reserved.deep_view() == Some(run_id@),
        r matches Err(refusal) ==> (refusal matches ApiError::Internal { detail } && detail@
            == "idempotency reservation does not match the target run"@),
{
    if let Some(reserved) = reserved {
        if text::same_text(reserved.as_str(), run_id) {
            return Ok(());
        }
    }
    Err(
        ApiError::Internal {
            detail: "idempotency reservation does not match the target run".to_owned(),
        },
    )
}

/// The run that a creation may execute as: the reserved one, never another.
pub fn take_reservation(reserved: Option<String>) -> (r: Result<String, ApiError>)
    ensures
        match reserved {
            Some(id) => r == Ok::<String, ApiError>(id),
            None => r matches Err(ApiError::Internal { detail }) && detail@
                == "idempotency reservation is missing; commit refused"@,
        },
{
    match reserved {
        Some(id) => Ok(id),
        None => Err(
            ApiError::Internal {
                detail: "idempotency reservation is missing; commit refused".to_owned(),
            },
        ),
    }
}

/// Where a run is found.
pub open spec fn run_location(run_id: Seq<char>) -> Seq<char> {
    "/api/runs/"@ + run_id
}

/// The answer to a creation: the run's snapshot, its validator, its location.
pub fn created_run_response(run_id: &str, snapshot: Vec<u8>) -> (r: Reply)
    ensures
        r@ == etag::validated_reply(201, snapshot@, Some(run_location(run_id@))),
{
    let mut location = "/api/runs/".to_owned();
    location.append(run_id);
    etag::json_response_with_etag(201, snapshot, Some(location))
}

/// The answer to a mutation, from the serialised snapshot of its run.
pub fn respond_with_snapshot(run_id: &str, snapshot: Vec<u8>, created: bool) -> (r: Reply)
    ensures
        r@ == (if created {
            etag::validated_reply(201, snapshot@, Some(run_location(run_id@)))
        } else {
            etag::validated_reply(200, snapshot@, None)
        }),
{
    if created {
        return created_run_response(run_id, snapshot);
    }
    etag::json_response_with_etag(200, snapshot, None)
}

/// A mutation's answer carries the validator that a read of the same snapshot
/// carries, so that the next read can be conditional on it.
pub proof fn an_answer_carries_the_validator_of_a_read(
    status: u16,
    snapshot: Seq<u8>,
    location: Option<Seq<char>>,
)
    ensures
        etag::validated_reply(status, snapshot, location).head.headers[1] == (
            "etag"@,
            etag::body_tag(snapshot),
        ),
        etag::conditional_reply(
            etag::Condition::Absent,
            snapshot,
            "application/json"@,
            etag::body_tag(snapshot),
        ).head.headers[1] == ("etag"@, etag::body_tag(snapshot)),
{
}

} // verus!
