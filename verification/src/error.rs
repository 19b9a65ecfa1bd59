//! The API-level error shape: a status code, a stable error code, and a
//! message, together with the `{ error: { code, message } }` envelope that
//! every failing response carries.

use vstd::prelude::*;

verus! {

/// A transport-ready error: HTTP status plus the envelope fields.
#[derive(Debug)]
pub struct ApiError {
    pub status: u16,
    pub code: &'static str,
    pub message: String,
}

/// Envelope of every error response.
#[derive(Debug)]
pub struct ErrorEnvelope {
    pub error: ErrorBody,
}

/// The error detail a client receives.
#[derive(Debug)]
pub struct ErrorBody {
    pub code: String,
    pub message: String,
}

impl ApiError {
    /// A 400 for a request that fails validation; the message is safe to
    /// expose verbatim.
    pub fn bad_request(message: String) -> (r: Self)
        ensures
            r.status == 400,
            r.code@ == "BAD_REQUEST"@,
            r.message == message,
    {
        ApiError { status: 400, code: "BAD_REQUEST", message }
    }

    /// A 404 for a resource that is absent from the caller's scope.
    pub fn not_found(message: String) -> (r: Self)
        ensures
            r.status == 404,
            r.code@ == "NOT_FOUND"@,
            r.message == message,
    {
        ApiError { status: 404, code: "NOT_FOUND", message }
    }

    /// A 500 for an unexpected internal failure.
    pub fn internal(message: String) -> (r: Self)
        ensures
            r.status == 500,
            r.code@ == "INTERNAL_ERROR"@,
            r.message == message,
    {
        ApiError { status: 500, code: "INTERNAL_ERROR", message }
    }

    /// The status and the serializable envelope for this error.
    pub fn into_envelope(self) -> (r: (u16, ErrorEnvelope))
        ensures
            r.0 == self.status,
            r.1.error.code@ == self.code@,
            r.1.error.message == self.message,
    {
        let code = self.code.to_owned();
        (self.status, ErrorEnvelope { error: ErrorBody { code, message: self.message } })
    }
}

} // verus!
