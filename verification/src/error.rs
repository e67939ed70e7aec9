use vstd::prelude::*;
use vstd::string::*;

verus! {

/// An error answered by the service: a rejected request, or a failure on the server side.
#[derive(Debug)]
pub enum AppError {
    BadRequest(String),
    InternalServerError(String),
}

impl AppError {
    /// The error is a rejected request whose message is `msg`.
    pub open spec fn is_bad_request_with(&self, msg: Seq<char>) -> bool {
        self matches AppError::BadRequest(m) && m@ == msg
    }

    /// The error is a server-side failure whose message is `msg`.
    pub open spec fn is_internal_with(&self, msg: Seq<char>) -> bool {
        self matches AppError::InternalServerError(m) && m@ == msg
    }

    /// The HTTP status the error is answered with: 400 for a rejected request, 500 for a
    /// failure on the server side.
    pub fn status_code(&self) -> (code: u16)
        ensures
            code == (if self is BadRequest { 400u16 } else { 500u16 }),
    {
        match self {
            AppError::BadRequest(_) => 400,
            AppError::InternalServerError(_) => 500,
        }
    }

    /// The message of the error.
    pub fn message(&self) -> (m: &str)
        ensures
            match self {
                AppError::BadRequest(s) => m@ == s@,
                AppError::InternalServerError(s) => m@ == s@,
            },
    {
        match self {
            AppError::BadRequest(m) => m.as_str(),
            AppError::InternalServerError(m) => m.as_str(),
        }
    }

    /// A rejected request with the given message.
    pub fn bad_request(msg: &str) -> (e: AppError)
        ensures
            e.is_bad_request_with(msg@),
    {
        AppError::BadRequest(String::from_str(msg))
    }

    /// A server-side failure: the step that failed, a colon, a space, and the cause.
    pub fn internal(context: &str, cause: &str) -> (e: AppError)
        ensures
            e.is_internal_with(context@ + ": "@ + cause@),
    {
        let mut m = String::from_str(context);
        m.append(": ");
        m.append(cause);
        AppError::InternalServerError(m)
    }
}

} // verus!
