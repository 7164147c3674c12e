use vstd::prelude::*;

verus! {

/// `serde_json::Value` carries a handler's payload through the envelope;
/// the library never looks inside it, so the type is declared opaque.
#[verifier::external_type_specification]
#[verifier::external_body]
pub struct ExValue(serde_json::Value);

/// Uniform status tag of every response envelope: `success` for 2xx
/// outcomes, `fail` for client-caused rejections, `error` for server faults.
#[derive(Clone, Copy, PartialEq, Eq, Structural, Debug)]
pub enum Status {
    Success,
    Fail,
    Error,
}

/// The uniform response envelope: a status tag, a human-readable message,
/// and an optional JSON payload.
pub struct GeneralResponse {
    pub status: Status,
    pub message: String,
    pub data: Option<serde_json::Value>,
}

impl GeneralResponse {
    /// Builds an envelope from its parts.
    pub fn new(status: Status, message: &str, data: Option<serde_json::Value>) -> (r: GeneralResponse)
        ensures
            r.status == status,
            r.message@ == message@,
            r.data == data,
    {
        GeneralResponse { status, message: message.to_string(), data }
    }
}

/// One row of the post listing: the post joined with its author and the
/// derived reaction totals.
pub struct PostResponse {
    pub post_id: u128,
    pub author_id: u128,
    pub author: String,
    pub author_pfp: String,
    pub title: String,
    pub content: String,
    pub like_count: Option<i64>,
    pub dislike_count: Option<i64>,
    pub updated_at: i64,
    pub created_at: i64,
}

/// Failures raised by the request handlers themselves: a client-caused
/// rejection, an internal fault, or a request body that was not valid JSON
/// (carried here as the rejection's message).
#[derive(Clone, Debug)]
pub enum ApiError {
    Fail(String),
    InternalServerError,
    JsonRejection(String),
}

impl ApiError {
    /// The HTTP status code this error is rendered with. A `Fail` is
    /// client-caused and maps to 400; the rest are server faults.
    pub open spec fn spec_http_status(&self) -> u16 {
        match self {
            ApiError::Fail(_) => 400,
            ApiError::InternalServerError => 500,
            ApiError::JsonRejection(_) => 500,
        }
    }

    /// The envelope status tag this error is rendered with.
    pub open spec fn spec_status(&self) -> Status {
        match self {
            ApiError::Fail(_) => Status::Fail,
            ApiError::InternalServerError => Status::Error,
            ApiError::JsonRejection(_) => Status::Error,
        }
    }

    /// The message the client sees; server faults collapse to fixed
    /// generic texts.
    pub open spec fn spec_message(&self) -> Seq<char> {
        match self {
            ApiError::Fail(m) => m@,
            ApiError::InternalServerError => "Internal server error"@,
            ApiError::JsonRejection(_) => "invalid json"@,
        }
    }

    /// Renders the error as the status code, message and status tag of its
    /// response envelope.
    pub fn response_parts(self) -> (r: (u16, String, Status))
        ensures
            r.0 == self.spec_http_status(),
            r.1@ == self.spec_message(),
            r.2 == self.spec_status(),
    {
        match self {
            ApiError::Fail(m) => (400, m, Status::Fail),
            ApiError::InternalServerError => (
                500,
                "Internal server error".to_string(),
                Status::Error,
            ),
            ApiError::JsonRejection(_) => (500, "invalid json".to_string(), Status::Error),
        }
    }
}

/// A JSON-extracted request body; extraction itself happens at the HTTP
/// boundary, this type only carries the parsed value.
pub struct AppJson<T>(pub T);

} // verus!
