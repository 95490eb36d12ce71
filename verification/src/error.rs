//! What a request is answered with: statuses, and the errors behind the ones
//! that refuse it.

use vstd::prelude::*;

verus! {

/// The HTTP statuses that the service answers with.
#[derive(Clone, Copy, Debug, PartialEq, Eq, Structural)]
pub enum Status {
    Success,
    Created,
    BadRequest,
    NotFound,
    Conflict,
    PayloadTooLarge,
    UnprocessableEntity,
    InternalServerError,
    ServiceUnavailable,
}

/// The number that stands for a status on the wire.
pub open spec fn status_number(status: Status) -> u16 {
    match status {
        Status::Success => 200,
        Status::Created => 201,
        Status::BadRequest => 400,
        Status::NotFound => 404,
        Status::Conflict => 409,
        Status::PayloadTooLarge => 413,
        Status::UnprocessableEntity => 422,
        Status::InternalServerError => 500,
        Status::ServiceUnavailable => 503,
    }
}

impl Status {
    pub fn number(&self) -> (n: u16)
        ensures
            n == status_number(*self),
    {
        match self {
            Status::Success => 200,
            Status::Created => 201,
            Status::BadRequest => 400,
            Status::NotFound => 404,
            Status::Conflict => 409,
            Status::PayloadTooLarge => 413,
            Status::UnprocessableEntity => 422,
            Status::InternalServerError => 500,
            Status::ServiceUnavailable => 503,
        }
    }
}

/// A successful or refusing answer: a status and what goes with it.
#[derive(Debug)]
pub struct Reply<T> {
    pub status: Status,
    pub body: T,
}

/// What went wrong, for a client to tell errors apart.
#[derive(Clone, Copy, Debug, PartialEq, Eq, Structural)]
pub enum ApiErrorCode {
    BadRequest,
    NotFound,
    Conflict,
    PayloadTooLarge,
    VirusScanUnavailable,
    VirusDetected,
    Internal,
}

/// Why a request is refused.
#[derive(Debug)]
pub struct ApiError {
    pub code: ApiErrorCode,
    pub message: String,
    pub details: Option<String>,
    pub status: Status,
}

/// The body of a refusing answer.
#[derive(Debug)]
pub struct ErrorBody {
    pub code: ApiErrorCode,
    pub message: String,
    pub details: Option<String>,
}

pub struct ErrorView {
    pub code: ApiErrorCode,
    pub message: Seq<char>,
    pub details: Option<Seq<char>>,
    pub status: Status,
}

pub struct ErrorBodyView {
    pub code: ApiErrorCode,
    pub message: Seq<char>,
    pub details: Option<Seq<char>>,
}

/// The text in an optional string.
pub open spec fn text_of(s: Option<String>) -> Option<Seq<char>> {
    match s {
        Some(t) => Some(t@),
        None => None,
    }
}

impl View for ApiError {
    type V = ErrorView;

    open spec fn view(&self) -> ErrorView {
        ErrorView {
            code: self.code,
            message: self.message@,
            details: text_of(self.details),
            status: self.status,
        }
    }
}

impl View for ErrorBody {
    type V = ErrorBodyView;

    open spec fn view(&self) -> ErrorBodyView {
        ErrorBodyView { code: self.code, message: self.message@, details: text_of(self.details) }
    }
}

/// The status with which each error is answered.
pub open spec fn status_of(code: ApiErrorCode) -> Status {
    match code {
        ApiErrorCode::BadRequest => Status::BadRequest,
        ApiErrorCode::NotFound => Status::NotFound,
        ApiErrorCode::Conflict => Status::Conflict,
        ApiErrorCode::PayloadTooLarge => Status::PayloadTooLarge,
        ApiErrorCode::VirusScanUnavailable => Status::ServiceUnavailable,
        ApiErrorCode::VirusDetected => Status::UnprocessableEntity,
        ApiErrorCode::Internal => Status::InternalServerError,
    }
}

/// An error without details.
pub open spec fn plain_error(code: ApiErrorCode, message: Seq<char>) -> ErrorView {
    ErrorView { code, message, details: None, status: status_of(code) }
}

/// An error with details.
pub open spec fn detailed_error(
    code: ApiErrorCode,
    message: Seq<char>,
    details: Seq<char>,
) -> ErrorView {
    ErrorView { code, message, details: Some(details), status: status_of(code) }
}

impl ApiError {
    pub fn bad_request(message: String) -> (e: ApiError)
        ensures
            e@ == plain_error(ApiErrorCode::BadRequest, message@),
    {
        ApiError {
            code: ApiErrorCode::BadRequest,
            message,
            details: None,
            status: Status::BadRequest,
        }
    }

    pub fn not_found(message: String) -> (e: ApiError)
        ensures
            e@ == plain_error(ApiErrorCode::NotFound, message@),
    {
        ApiError { code: ApiErrorCode::NotFound, message, details: None, status: Status::NotFound }
    }

    pub fn conflict(message: String) -> (e: ApiError)
        ensures
            e@ == plain_error(ApiErrorCode::Conflict, message@),
    {
        ApiError { code: ApiErrorCode::Conflict, message, details: None, status: Status::Conflict }
    }

    pub fn payload_too_large(message: String) -> (e: ApiError)
        ensures
            e@ == plain_error(ApiErrorCode::PayloadTooLarge, message@),
    {
        ApiError {
            code: ApiErrorCode::PayloadTooLarge,
            message,
            details: None,
            status: Status::PayloadTooLarge,
        }
    }

    pub fn virus_scan_unavailable(message: String) -> (e: ApiError)
        ensures
            e@ == plain_error(ApiErrorCode::VirusScanUnavailable, message@),
    {
        ApiError {
            code: ApiErrorCode::VirusScanUnavailable,
            message,
            details: None,
            status: Status::ServiceUnavailable,
        }
    }

    pub fn virus_detected(message: String, details: String) -> (e: ApiError)
        ensures
            e@ == detailed_error(ApiErrorCode::VirusDetected, message@, details@),
    {
        ApiError {
            code: ApiErrorCode::VirusDetected,
            message,
            details: Some(details),
            status: Status::UnprocessableEntity,
        }
    }

    pub fn internal(message: String, details: String) -> (e: ApiError)
        ensures
            e@ == detailed_error(ApiErrorCode::Internal, message@, details@),
    {
        ApiError {
            code: ApiErrorCode::Internal,
            message,
            details: Some(details),
            status: Status::InternalServerError,
        }
    }

    /// The answer that reports this error.
    pub fn into_response(self) -> (r: Reply<ErrorBody>)
        ensures
            r.status == self@.status,
            r.body@ == (ErrorBodyView {
                code: self@.code,
                message: self@.message,
                details: self@.details,
            }),
    {
        let body = ErrorBody { code: self.code, message: self.message, details: self.details };
        Reply { status: self.status, body }
    }
}

/// The answer to a request that matches no route.
pub fn no_such_route() -> (r: Reply<ErrorBody>)
    ensures
        r.status == Status::NotFound,
        r.body@ == (ErrorBodyView {
            code: ApiErrorCode::NotFound,
            message: "not found"@,
            details: None,
        }),
{
    ApiError::not_found("not found".to_string()).into_response()
}

} // verus!
