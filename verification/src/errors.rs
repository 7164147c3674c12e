use vstd::prelude::*;

verus! {

/// The error taxonomy every failure is converted to before it reaches the
/// client: `Unauthorized` maps to 401, `BadRequest` to 400, `NotFound` to
/// 404, and `InternalServerError` to 500 with a deliberately generic
/// message so that no storage or cryptographic detail leaks out.
#[derive(Clone, Debug)]
pub enum ApiError {
    NotFound(String),
    BadRequest(String),
    Unauthorized(String),
    InternalServerError,
}

impl ApiError {
    /// The HTTP status code this error is rendered with.
    pub open spec fn spec_http_status(&self) -> u16 {
        match self {
            ApiError::NotFound(_) => 404,
            ApiError::BadRequest(_) => 400,
            ApiError::Unauthorized(_) => 401,
            ApiError::InternalServerError => 500,
        }
    }

    /// The message the client sees; internal faults collapse to a fixed
    /// generic text.
    pub open spec fn spec_message(&self) -> Seq<char> {
        match self {
            ApiError::NotFound(m) => m@,
            ApiError::BadRequest(m) => m@,
            ApiError::Unauthorized(m) => m@,
            ApiError::InternalServerError => "Internal server error"@,
        }
    }

    /// Renders the error as the status code and message of its response.
    pub fn response_parts(self) -> (r: (u16, String))
        ensures
            r.0 == self.spec_http_status(),
            r.1@ == self.spec_message(),
    {
        match self {
            ApiError::NotFound(m) => (404, m),
            ApiError::BadRequest(m) => (400, m),
            ApiError::Unauthorized(m) => (401, m),
            ApiError::InternalServerError => (500, "Internal server error".to_string()),
        }
    }
}

} // verus!
