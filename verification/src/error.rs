//! The error that the control panel's API answers with: a status class and
//! a human-readable message.

use vstd::prelude::*;

verus! {

/// The HTTP status class of a refused request.
#[derive(Clone, Copy, Debug, PartialEq, Eq, Structural)]
pub enum ErrorStatus {
    BadRequest,
    Unauthorized,
    Forbidden,
    NotFound,
    Conflict,
    Internal,
    BadGateway,
    ServiceUnavailable,
}

/// A refused API request.
#[derive(Clone, Debug)]
pub struct ApiError {
    pub status: ErrorStatus,
    pub message: String,
}

/// The mathematical value of an [`ApiError`].
pub struct ApiErrorView {
    pub status: ErrorStatus,
    pub message: Seq<char>,
}

impl View for ApiError {
    type V = ApiErrorView;

    open spec fn view(&self) -> ApiErrorView {
        ApiErrorView { status: self.status, message: self.message@ }
    }
}

pub open spec fn api_error(status: ErrorStatus, message: Seq<char>) -> ApiErrorView {
    ApiErrorView { status, message }
}

/// `r` is `Ok` exactly when nothing is expected to be refused, and otherwise
/// carries the expected error.
pub open spec fn check_matches<T>(r: Result<T, ApiError>, expected: Option<ApiErrorView>) -> bool {
    match r {
        Ok(_) => expected is None,
        Err(e) => expected == Some(e@),
    }
}

/// The view of a result whose error is an [`ApiError`].
pub open spec fn outcome<T: View>(r: Result<T, ApiError>) -> Result<T::V, ApiErrorView> {
    match r {
        Ok(x) => Ok(x@),
        Err(e) => Err(e@),
    }
}

impl ApiError {
    pub fn new(status: ErrorStatus, message: String) -> (e: ApiError)
        ensures
            e@ == api_error(status, message@),
    {
        ApiError { status, message }
    }

    pub fn bad_request(message: String) -> (e: ApiError)
        ensures
            e@ == api_error(ErrorStatus::BadRequest, message@),
    {
        ApiError { status: ErrorStatus::BadRequest, message }
    }

    pub fn not_found(message: String) -> (e: ApiError)
        ensures
            e@ == api_error(ErrorStatus::NotFound, message@),
    {
        ApiError { status: ErrorStatus::NotFound, message }
    }

    pub fn conflict(message: String) -> (e: ApiError)
        ensures
            e@ == api_error(ErrorStatus::Conflict, message@),
    {
        ApiError { status: ErrorStatus::Conflict, message }
    }

    pub fn internal(message: String) -> (e: ApiError)
        ensures
            e@ == api_error(ErrorStatus::Internal, message@),
    {
        ApiError { status: ErrorStatus::Internal, message }
    }

    /// The numeric HTTP status code of the error.
    pub fn status_code(&self) -> (code: u16)
        ensures
            code == match self.status {
                ErrorStatus::BadRequest => 400u16,
                ErrorStatus::Unauthorized => 401u16,
                ErrorStatus::Forbidden => 403u16,
                ErrorStatus::NotFound => 404u16,
                ErrorStatus::Conflict => 409u16,
                ErrorStatus::Internal => 500u16,
                ErrorStatus::BadGateway => 502u16,
                ErrorStatus::ServiceUnavailable => 503u16,
            },
    {
        match self.status {
            ErrorStatus::BadRequest => 400,
            ErrorStatus::Unauthorized => 401,
            ErrorStatus::Forbidden => 403,
            ErrorStatus::NotFound => 404,
            ErrorStatus::Conflict => 409,
            ErrorStatus::Internal => 500,
            ErrorStatus::BadGateway => 502,
            ErrorStatus::ServiceUnavailable => 503,
        }
    }
}

} // verus!
