//! How a request is refused: an HTTP status, a code for programs and a
//! message for people.
use vstd::prelude::*;

verus! {

/// What a refused request is answered with.
#[derive(Debug, PartialEq, Eq)]
pub struct ApiError {
    pub status: u16,
    pub code: &'static str,
    pub message: String,
}

/// The answer as plain values.
#[verifier::ext_equal]
pub struct ErrorView {
    pub status: u16,
    pub code: Seq<char>,
    pub message: Seq<char>,
}

/// An answer with the given status.
pub open spec fn refusal(status: u16, code: Seq<char>, message: Seq<char>) -> ErrorView {
    ErrorView { status, code, message }
}

impl View for ApiError {
    type V = ErrorView;

    open spec fn view(&self) -> ErrorView {
        ErrorView { status: self.status, code: self.code@, message: self.message@ }
    }
}

impl DeepView for ApiError {
    type V = ErrorView;

    open spec fn deep_view(&self) -> ErrorView {
        self@
    }
}

impl ApiError {
    /// The request asks for something that makes no sense.
    pub fn bad_request(code: &'static str, message: String) -> (error: ApiError)
        ensures
            error@ == refusal(400, code@, message@),
    {
        ApiError { status: 400, code, message }
    }

    /// The request needs somebody signed in.
    pub fn unauthorized(code: &'static str, message: String) -> (error: ApiError)
        ensures
            error@ == refusal(401, code@, message@),
    {
        ApiError { status: 401, code, message }
    }

    /// Whoever is asking may not.
    pub fn forbidden(code: &'static str, message: String) -> (error: ApiError)
        ensures
            error@ == refusal(403, code@, message@),
    {
        ApiError { status: 403, code, message }
    }

    /// What is asked about is not there.
    pub fn not_found(code: &'static str, message: String) -> (error: ApiError)
        ensures
            error@ == refusal(404, code@, message@),
    {
        ApiError { status: 404, code, message }
    }

    /// The request does not fit the state of the server.
    pub fn conflict(code: &'static str, message: String) -> (error: ApiError)
        ensures
            error@ == refusal(409, code@, message@),
    {
        ApiError { status: 409, code, message }
    }

    /// The request is based on a version that has been replaced.
    pub fn precondition_failed(code: &'static str, message: String) -> (error: ApiError)
        ensures
            error@ == refusal(412, code@, message@),
    {
        ApiError { status: 412, code, message }
    }

    /// The request brings more than there is room for.
    pub fn payload_too_large(code: &'static str, message: String) -> (error: ApiError)
        ensures
            error@ == refusal(413, code@, message@),
    {
        ApiError { status: 413, code, message }
    }

    /// The server could not do what it should have done.
    pub fn internal(code: &'static str, message: String) -> (error: ApiError)
        ensures
            error@ == refusal(500, code@, message@),
    {
        ApiError { status: 500, code, message }
    }
}

} // verus!
