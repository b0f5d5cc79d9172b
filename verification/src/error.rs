//! Problem documents: the JSON error shape that every refused request is
//! answered with.
use vstd::prelude::*;
use vstd::string::*;
use crate::text;

verus! {

/// A field-level reason inside a problem document.
#[derive(Debug)]
pub struct ProblemFieldError {
    pub field: String,
    pub reason: String,
}

/// The problem document itself.
#[derive(Debug)]
pub struct ProblemDetails {
    pub problem_type: String,
    pub title: String,
    pub status: u16,
    pub detail: String,
    pub instance: String,
    pub code: String,
    pub errors: Vec<ProblemFieldError>,
}

/// A refused request: its problem document.
#[derive(Debug)]
pub struct ApiHttpError {
    pub problem: ProblemDetails,
}

/// What the run service reports when it refuses an operation.
#[derive(Debug)]
pub enum ApiError {
    NotFound { detail: String },
    Invalid { field: Option<String>, reason: String },
    TooLarge { limit_bytes: u64, actual_bytes: u64 },
    Conflict { detail: String },
    Unsupported { detail: String },
    Unavailable { detail: String },
    Internal { detail: String },
}

/// A problem document as text values.
pub struct ProblemModel {
    pub problem_type: Seq<char>,
    pub title: Seq<char>,
    pub status: u16,
    pub detail: Seq<char>,
    pub instance: Seq<char>,
    pub code: Seq<char>,
    /// The field and the reason of each field error, in order.
    pub errors: Seq<(Seq<char>, Seq<char>)>,
}

/// The problem document of a refusal: the type URI follows from the code and
/// the instance is empty.
pub open spec fn problem(
    status: u16,
    title: Seq<char>,
    code: Seq<char>,
    detail: Seq<char>,
    errors: Seq<(Seq<char>, Seq<char>)>,
) -> ProblemModel {
    ProblemModel {
        problem_type: "https://qcg.dev/problems/"@ + code,
        title,
        status,
        detail,
        instance: ""@,
        code,
        errors,
    }
}

/// The field errors as text pairs.
pub open spec fn field_errors(errors: Seq<ProblemFieldError>) -> Seq<(Seq<char>, Seq<char>)> {
    errors.map_values(|e: ProblemFieldError| (e.field@, e.reason@))
}

impl View for ApiHttpError {
    type V = ProblemModel;

    open spec fn view(&self) -> ProblemModel {
        ProblemModel {
            problem_type: self.problem.problem_type@,
            title: self.problem.title@,
            status: self.problem.status,
            detail: self.problem.detail@,
            instance: self.problem.instance@,
            code: self.problem.code@,
            errors: field_errors(self.problem.errors@),
        }
    }
}

/// An invalid request that names no field.
pub open spec fn bad_request_problem(message: Seq<char>) -> ProblemModel {
    problem(400, "Invalid request"@, "invalid_request"@, message, seq![])
}

/// An invalid request whose `field` is at fault.
pub open spec fn bad_request_field_problem(field: Seq<char>, reason: Seq<char>) -> ProblemModel {
    problem(400, "Invalid request"@, "invalid_request"@, reason, seq![(field, reason)])
}

/// A failure on the server's side.
pub open spec fn internal_problem(detail: Seq<char>) -> ProblemModel {
    problem(500, "Internal server error"@, "internal_error"@, detail, seq![])
}

/// A request without a valid credential.
pub open spec fn unauthorized_problem(detail: Seq<char>) -> ProblemModel {
    problem(401, "Unauthorized"@, "unauthorized"@, detail, seq![])
}

/// A request that the caller may not make.
pub open spec fn forbidden_problem(detail: Seq<char>) -> ProblemModel {
    problem(403, "Forbidden"@, "forbidden"@, detail, seq![])
}

/// A request that cannot be served now.
pub open spec fn unavailable_problem(detail: Seq<char>) -> ProblemModel {
    problem(503, "Service unavailable"@, "service_unavailable"@, detail, seq![])
}

/// A request beyond the rate limit.
pub open spec fn too_many_requests_problem(detail: Seq<char>) -> ProblemModel {
    problem(429, "Too many requests"@, "too_many_requests"@, detail, seq![])
}

/// A request that contradicts the state of a resource.
pub open spec fn conflict_problem(detail: Seq<char>) -> ProblemModel {
    problem(409, "Resource conflict"@, "conflict"@, detail, seq![])
}

/// The problem document that a service refusal is answered with.
pub open spec fn api_problem(error: ApiError) -> ProblemModel {
    match error {
        ApiError::NotFound { detail } => problem(
            404,
            "Resource not found"@,
            "not_found"@,
            detail@,
            seq![],
        ),
        ApiError::Invalid { field: None, reason } => bad_request_problem(reason@),
        ApiError::Invalid { field: Some(field), reason } => problem(
            422,
            "Invalid request"@,
            "validation_failed"@,
            reason@,
            seq![(field@, reason@)],
        ),
        ApiError::TooLarge { limit_bytes, actual_bytes } => problem(
            413,
            "Payload too large"@,
            "payload_too_large"@,
            "payload is "@ + text::decimal(actual_bytes as nat) + " bytes; limit is "@ + text::decimal(
                limit_bytes as nat,
            ) + " bytes"@,
            seq![],
        ),
        ApiError::Conflict { detail } => conflict_problem(detail@),
        ApiError::Unsupported { detail } => problem(
            422,
            "Unsupported operation"@,
            "unsupported"@,
            detail@,
            seq![],
        ),
        ApiError::Unavailable { detail } => unavailable_problem(detail@),
        ApiError::Internal { detail } => internal_problem(detail@),
    }
}

impl ApiHttpError {
    /// A problem document with the given parts; the type URI is built from
    /// the code.
    pub fn new(
        status: u16,
        title: &str,
        code: &str,
        detail: String,
        instance: &str,
        errors: Vec<ProblemFieldError>,
    ) -> (r: Self)
        ensures
            r@ == (ProblemModel {
                instance: instance@,
                ..problem(status, title@, code@, detail@, field_errors(errors@))
            }),
    {
        let mut problem_type = "https://qcg.dev/problems/".to_owned();
        problem_type.append(code);
        ApiHttpError {
            problem: ProblemDetails {
                problem_type,
                title: title.to_owned(),
                status,
                detail,
                instance: instance.to_owned(),
                code: code.to_owned(),
                errors,
            },
        }
    }

    pub fn bad_request(message: String) -> (r: Self)
        ensures
            r@ == bad_request_problem(message@),
    {
        let r = Self::new(400, "Invalid request", "invalid_request", message, "", Vec::new());
        assert(r@.errors == Seq::<(Seq<char>, Seq<char>)>::empty());
        r
    }

    pub fn bad_request_field(field: String, reason: String) -> (r: Self)
        ensures
            r@ == bad_request_field_problem(field@, reason@),
    {
        let mut errors: Vec<ProblemFieldError> = Vec::new();
        errors.push(ProblemFieldError { field, reason: reason.clone() });
        let r = Self::new(400, "Invalid request", "invalid_request", reason, "", errors);
        assert(r@.errors == seq![(field@, reason@)]);
        r
    }

    pub fn internal(detail: String) -> (r: Self)
        ensures
            r@ == internal_problem(detail@),
    {
        let r = Self::new(500, "Internal server error", "internal_error", detail, "", Vec::new());
        assert(r@.errors == Seq::<(Seq<char>, Seq<char>)>::empty());
        r
    }

    pub fn unauthorized(detail: String) -> (r: Self)
        ensures
            r@ == unauthorized_problem(detail@),
    {
        let r = Self::new(401, "Unauthorized", "unauthorized", detail, "", Vec::new());
        assert(r@.errors == Seq::<(Seq<char>, Seq<char>)>::empty());
        r
    }

    pub fn forbidden(detail: String) -> (r: Self)
        ensures
            r@ == forbidden_problem(detail@),
    {
        let r = Self::new(403, "Forbidden", "forbidden", detail, "", Vec::new());
        assert(r@.errors == Seq::<(Seq<char>, Seq<char>)>::empty());
        r
    }

    pub fn service_unavailable(detail: String) -> (r: Self)
        ensures
            r@ == unavailable_problem(detail@),
    {
        let r = Self::new(
            503,
            "Service unavailable",
            "service_unavailable",
            detail,
            "",
            Vec::new(),
        );
        assert(r@.errors == Seq::<(Seq<char>, Seq<char>)>::empty());
        r
    }

    pub fn too_many_requests(detail: String) -> (r: Self)
        ensures
            r@ == too_many_requests_problem(detail@),
    {
        let r = Self::new(429, "Too many requests", "too_many_requests", detail, "", Vec::new());
        assert(r@.errors == Seq::<(Seq<char>, Seq<char>)>::empty());
        r
    }

    /// The answer to a refusal of the run service.
    pub fn from_api(error: ApiError) -> (r: Self)
        ensures
            r@ == api_problem(error),
    {
        let none: Vec<ProblemFieldError> = Vec::new();
        assert(field_errors(none@) == Seq::<(Seq<char>, Seq<char>)>::empty());
        match error {
            ApiError::NotFound { detail } => Self::new(
                404,
                "Resource not found",
                "not_found",
                detail,
                "",
                none,
            ),
            ApiError::Invalid { field: None, reason } => Self::bad_request(reason),
            ApiError::Invalid { field: Some(field), reason } => {
                let mut errors: Vec<ProblemFieldError> = Vec::new();
                errors.push(ProblemFieldError { field, reason: reason.clone() });
                let r = Self::new(422, "Invalid request", "validation_failed", reason, "", errors);
                assert(r@.errors == seq![(field@, reason@)]);
                r
            },
            ApiError::TooLarge { limit_bytes, actual_bytes } => {
                let mut detail = "payload is ".to_owned();
                text::push_decimal(&mut detail, actual_bytes);
                detail.append(" bytes; limit is ");
                text::push_decimal(&mut detail, limit_bytes);
                detail.append(" bytes");
                Self::new(413, "Payload too large", "payload_too_large", detail, "", none)
            },
            ApiError::Conflict { detail } => Self::new(
                409,
                "Resource conflict",
                "conflict",
                detail,
                "",
                none,
            ),
            ApiError::Unsupported { detail } => Self::new(
                422,
                "Unsupported operation",
                "unsupported",
                detail,
                "",
                none,
            ),
            ApiError::Unavailable { detail } => Self::service_unavailable(detail),
            ApiError::Internal { detail } => Self::internal(detail),
        }
    }
}

} // verus!
