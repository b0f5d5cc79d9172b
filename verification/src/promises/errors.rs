//! What a refused request is answered.
use vstd::prelude::*;
use crate::error;
use crate::error::ApiError;
use crate::text;

verus! {

/// Every problem names its kind by a URI that ends in its code, and no
/// instance.
pub proof fn a_problem_is_named_by_its_code(
    status: u16,
    title: Seq<char>,
    code: Seq<char>,
    detail: Seq<char>,
    errors: Seq<(Seq<char>, Seq<char>)>,
)
    ensures
        ({
            let told = error::problem(status, title, code, detail, errors);
            &&& told.status == status
            &&& told.title == title
            &&& told.code == code
            &&& told.detail == detail
            &&& told.errors == errors
            &&& told.instance.len() == 0
            &&& told.problem_type == "https://qcg.dev/problems/"@ + code
        }),
{
    reveal_strlit("");
}

/// The status, the code and the title of each refusal, and the detail that was
/// given.
pub proof fn each_refusal_has_its_status(detail: Seq<char>, field: Seq<char>)
    ensures
        error::bad_request_problem(detail).status == 400,
        error::bad_request_problem(detail).code == "invalid_request"@,
        error::bad_request_problem(detail).title == "Invalid request"@,
        error::bad_request_problem(detail).detail == detail,
        error::bad_request_problem(detail).errors.len() == 0,
        error::bad_request_field_problem(field, detail).status == 400,
        error::bad_request_field_problem(field, detail).code == "invalid_request"@,
        error::bad_request_field_problem(field, detail).title == "Invalid request"@,
        error::bad_request_field_problem(field, detail).detail == detail,
        error::bad_request_field_problem(field, detail).errors == seq![(field, detail)],
        error::internal_problem(detail).status == 500,
        error::internal_problem(detail).code == "internal_error"@,
        error::internal_problem(detail).title == "Internal server error"@,
        error::internal_problem(detail).detail == detail,
        error::unauthorized_problem(detail).status == 401,
        error::unauthorized_problem(detail).code == "unauthorized"@,
        error::unauthorized_problem(detail).title == "Unauthorized"@,
        error::unauthorized_problem(detail).detail == detail,
        error::forbidden_problem(detail).status == 403,
        error::forbidden_problem(detail).code == "forbidden"@,
        error::forbidden_problem(detail).title == "Forbidden"@,
        error::forbidden_problem(detail).detail == detail,
        error::unavailable_problem(detail).status == 503,
        error::unavailable_problem(detail).code == "service_unavailable"@,
        error::unavailable_problem(detail).title == "Service unavailable"@,
        error::unavailable_problem(detail).detail == detail,
        error::too_many_requests_problem(detail).status == 429,
        error::too_many_requests_problem(detail).code == "too_many_requests"@,
        error::too_many_requests_problem(detail).title == "Too many requests"@,
        error::too_many_requests_problem(detail).detail == detail,
        error::conflict_problem(detail).status == 409,
        error::conflict_problem(detail).code == "conflict"@,
        error::conflict_problem(detail).title == "Resource conflict"@,
        error::conflict_problem(detail).detail == detail,
{
}

/// What the run service reports reaches the client under the status of its
/// kind, with its own words.
pub proof fn a_service_error_keeps_its_kind(error: ApiError)
    ensures
        ({
            let told = error::api_problem(error);
            match error {
                ApiError::NotFound { detail } => told.status == 404 && told.code == "not_found"@
                    && told.title == "Resource not found"@ && told.detail == detail@
                    && told.errors.len() == 0,
                ApiError::Invalid { field: None, reason } => told.status == 400 && told.code
                    == "invalid_request"@ && told.detail == reason@ && told.errors.len() == 0,
                ApiError::Invalid { field: Some(field), reason } => told.status == 422 && told.code
                    == "validation_failed"@ && told.title == "Invalid request"@ && told.detail
                    == reason@ && told.errors == seq![(field@, reason@)],
                ApiError::TooLarge { limit_bytes, actual_bytes } => told.status == 413
                    && told.code == "payload_too_large"@ && told.title == "Payload too large"@
                    && told.detail == "payload is "@ + text::decimal(actual_bytes as nat)
                    + " bytes; limit is "@ + text::decimal(limit_bytes as nat) + " bytes"@,
                ApiError::Conflict { detail } => told.status == 409 && told.code == "conflict"@
                    && told.detail == detail@,
                ApiError::Unsupported { detail } => told.status == 422 && told.code
                    == "unsupported"@ && told.title == "Unsupported operation"@ && told.detail
                    == detail@,
                ApiError::Unavailable { detail } => told.status == 503 && told.code
                    == "service_unavailable"@ && told.detail == detail@,
                ApiError::Internal { detail } => told.status == 500 && told.code
                    == "internal_error"@ && told.detail == detail@,
            }
        }),
        error::api_problem(error).problem_type == "https://qcg.dev/problems/"@
            + error::api_problem(error).code,
{
}

} // verus!
