//! Application-wide error type and its HTTP status mapping.
use vstd::prelude::*;

verus! {

/// Which kind of failure an [`AppError`] reports.
#[derive(Debug, Clone, Copy, PartialEq, Eq, Structural)]
pub enum ErrorKind {
    NotFound,
    Conflict,
    BadRequest,
    Internal,
    Unauthorized,
    Forbidden,
    AgentError,
    AgentUnavailable,
    Db,
}

/// Application-wide error type; each variant carries its message.
#[derive(Debug)]
pub enum AppError {
    /// Resource was not found (404).
    NotFound(String),
    /// Request conflicts with existing state (409).
    Conflict(String),
    /// Client sent an invalid request (400).
    BadRequest(String),
    /// Unexpected server-side failure (500).
    Internal(String),
    /// Missing or invalid authentication credentials (401).
    Unauthorized(String),
    /// Authenticated but insufficient permissions (403).
    Forbidden(String),
    /// Remote agent returned an error (502).
    AgentError(String),
    /// Remote agent is unreachable (503).
    AgentUnavailable(String),
    /// Database failure, with the database's own message.
    Db(String),
}

impl View for AppError {
    type V = (ErrorKind, Seq<char>);

    open spec fn view(&self) -> (ErrorKind, Seq<char>) {
        match self {
            AppError::NotFound(m) => (ErrorKind::NotFound, m@),
            AppError::Conflict(m) => (ErrorKind::Conflict, m@),
            AppError::BadRequest(m) => (ErrorKind::BadRequest, m@),
            AppError::Internal(m) => (ErrorKind::Internal, m@),
            AppError::Unauthorized(m) => (ErrorKind::Unauthorized, m@),
            AppError::Forbidden(m) => (ErrorKind::Forbidden, m@),
            AppError::AgentError(m) => (ErrorKind::AgentError, m@),
            AppError::AgentUnavailable(m) => (ErrorKind::AgentUnavailable, m@),
            AppError::Db(m) => (ErrorKind::Db, m@),
        }
    }
}

/// The view of a `BadRequest` error carrying message `m`.
pub open spec fn bad_request(m: Seq<char>) -> (ErrorKind, Seq<char>) {
    (ErrorKind::BadRequest, m)
}

/// The HTTP status code a response for an error of kind `k` carries.
pub open spec fn spec_http_status(k: ErrorKind) -> u16 {
    match k {
        ErrorKind::NotFound => 404,
        ErrorKind::Conflict => 409,
        ErrorKind::BadRequest => 400,
        ErrorKind::Internal => 500,
        ErrorKind::Unauthorized => 401,
        ErrorKind::Forbidden => 403,
        ErrorKind::AgentError => 502,
        ErrorKind::AgentUnavailable => 503,
        ErrorKind::Db => 500,
    }
}

/// What the text of an error of `kind` starts with before its message (nothing
/// for a database error, whose text is the database's own).
pub open spec fn display_prefix(kind: ErrorKind) -> Seq<char> {
    match kind {
        ErrorKind::NotFound => "not found: "@,
        ErrorKind::Conflict => "conflict: "@,
        ErrorKind::BadRequest => "bad request: "@,
        ErrorKind::Internal => "internal: "@,
        ErrorKind::Unauthorized => "unauthorized: "@,
        ErrorKind::Forbidden => "forbidden: "@,
        ErrorKind::AgentError => "agent error: "@,
        ErrorKind::AgentUnavailable => "agent unavailable: "@,
        ErrorKind::Db => Seq::<char>::empty(),
    }
}

impl AppError {
    /// The text this error is displayed as: a prefix naming its kind, then its
    /// message.
    pub fn display_text(&self) -> (t: String)
        ensures
            t@ == display_prefix(self@.0) + self@.1,
    {
        let prefix = match self {
            AppError::NotFound(_) => "not found: ",
            AppError::Conflict(_) => "conflict: ",
            AppError::BadRequest(_) => "bad request: ",
            AppError::Internal(_) => "internal: ",
            AppError::Unauthorized(_) => "unauthorized: ",
            AppError::Forbidden(_) => "forbidden: ",
            AppError::AgentError(_) => "agent error: ",
            AppError::AgentUnavailable(_) => "agent unavailable: ",
            AppError::Db(_) => "",
        };
        let mut t = prefix.to_string();
        t.append(self.message().as_str());
        proof {
            reveal_strlit("");
        }
        t
    }

    /// The kind of this error.
    pub fn kind(&self) -> (k: ErrorKind)
        ensures
            k == self@.0,
    {
        match self {
            AppError::NotFound(_) => ErrorKind::NotFound,
            AppError::Conflict(_) => ErrorKind::Conflict,
            AppError::BadRequest(_) => ErrorKind::BadRequest,
            AppError::Internal(_) => ErrorKind::Internal,
            AppError::Unauthorized(_) => ErrorKind::Unauthorized,
            AppError::Forbidden(_) => ErrorKind::Forbidden,
            AppError::AgentError(_) => ErrorKind::AgentError,
            AppError::AgentUnavailable(_) => ErrorKind::AgentUnavailable,
            AppError::Db(_) => ErrorKind::Db,
        }
    }

    /// The message this error carries.
    pub fn message(&self) -> (m: &String)
        ensures
            m@ == self@.1,
    {
        match self {
            AppError::NotFound(m) => m,
            AppError::Conflict(m) => m,
            AppError::BadRequest(m) => m,
            AppError::Internal(m) => m,
            AppError::Unauthorized(m) => m,
            AppError::Forbidden(m) => m,
            AppError::AgentError(m) => m,
            AppError::AgentUnavailable(m) => m,
            AppError::Db(m) => m,
        }
    }

    /// The HTTP status code of the response that reports this error.
    pub fn http_status(&self) -> (code: u16)
        ensures
            code == spec_http_status(self@.0),
    {
        match self {
            AppError::NotFound(_) => 404,
            AppError::Conflict(_) => 409,
            AppError::BadRequest(_) => 400,
            AppError::Internal(_) => 500,
            AppError::Unauthorized(_) => 401,
            AppError::Forbidden(_) => 403,
            AppError::AgentError(_) => 502,
            AppError::AgentUnavailable(_) => 503,
            AppError::Db(_) => 500,
        }
    }

    /// The message a response body reports for this error: database failures
    /// are reported as `internal error`, every other error by its own message.
    pub fn response_message(&self) -> (m: String)
        ensures
            m@ == (if self@.0 == ErrorKind::Db {
                "internal error"@
            } else {
                self@.1
            }),
    {
        match self {
            AppError::Db(_) => "internal error".to_string(),
            _ => self.message().clone(),
        }
    }

    /// The JSON body of the response that reports this error: `{"error": message}`.
    pub fn response_body(&self) -> (r: crate::json::JsonValue)
        ensures
            r@ == crate::json::JsonView::Object(
                seq![
                    (
                        "error"@,
                        crate::json::JsonView::String(
                            if self@.0 == ErrorKind::Db {
                                "internal error"@
                            } else {
                                self@.1
                            },
                        ),
                    ),
                ],
            ),
    {
        let m = self.response_message();
        let ghost mv = m@;
        let e = vec![("error".to_string(), crate::json::JsonValue::String(m))];
        proof {
            crate::json::lemma_entries_view(e@);
        }
        assert(crate::json::entries_view(e@) =~= seq![("error"@, crate::json::JsonView::String(mv))]);
        crate::json::jobj(e)
    }
}

} // verus!
