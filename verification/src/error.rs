//! The error type of the AI service and how it is answered over HTTP.

use vstd::prelude::*;

verus! {

/// `reqwest::Error`, the failure of an HTTP exchange.
#[verifier::external_type_specification]
#[verifier::external_body]
pub struct ExReqwestError(reqwest::Error);

/// What `<reqwest::Error as Display>::fmt` writes for an error.
pub uninterp spec fn reqwest_error_display(e: reqwest::Error) -> Seq<char>;

/// Renders an HTTP failure as text (`reqwest::Error`'s `Display`).
#[verifier::external_body]
fn reqwest_error_text(e: &reqwest::Error) -> (t: String)
    ensures
        t@ == reqwest_error_display(*e),
{
    e.to_string()
}

/// Why a request to the AI service failed.
#[derive(Debug)]
pub enum AppError {
    /// The client's request is not acceptable.
    BadRequest(String),
    /// A required setting is absent; it holds the setting's name.
    MissingConfig(String),
    /// An HTTP exchange with an upstream service failed.
    UpstreamRequest(reqwest::Error),
    /// An upstream service answered with something unusable.
    InvalidUpstream(String),
}

/// The HTTP status with which each error is answered.
pub open spec fn error_status(e: AppError) -> u16 {
    match e {
        AppError::BadRequest(_) => 400,
        AppError::MissingConfig(_) => 500,
        AppError::UpstreamRequest(_) => 502,
        AppError::InvalidUpstream(_) => 502,
    }
}

/// The text of each error, as its `Display` writes it.
pub open spec fn error_text(e: AppError) -> Seq<char> {
    match e {
        AppError::BadRequest(m) => "bad request: "@ + m@,
        AppError::MissingConfig(m) => "missing configuration: "@ + m@,
        AppError::UpstreamRequest(r) => "upstream request failed: "@ + reqwest_error_display(r),
        AppError::InvalidUpstream(m) => "upstream response invalid: "@ + m@,
    }
}

/// The body of an error answer: a JSON object with one `message` field.
#[derive(Debug, Clone)]
pub struct ApiError {
    pub message: String,
}

impl AppError {
    /// The error for a required setting that is absent.
    pub fn missing_config(name: &str) -> (e: AppError)
        ensures
            e matches AppError::MissingConfig(n) && n@ == name@,
    {
        AppError::MissingConfig(String::from_str(name))
    }

    /// The HTTP status of the answer to this error.
    pub fn status_code(&self) -> (s: u16)
        ensures
            s == error_status(*self),
    {
        match self {
            AppError::BadRequest(_) => 400,
            AppError::MissingConfig(_) => 500,
            AppError::UpstreamRequest(_) => 502,
            AppError::InvalidUpstream(_) => 502,
        }
    }

    /// The text of this error.
    pub fn message(&self) -> (t: String)
        ensures
            t@ == error_text(*self),
    {
        let (prefix, detail) = match self {
            AppError::BadRequest(m) => (String::from_str("bad request: "), m.clone()),
            AppError::MissingConfig(m) => (String::from_str("missing configuration: "), m.clone()),
            AppError::UpstreamRequest(r) => (
                String::from_str("upstream request failed: "),
                reqwest_error_text(r),
            ),
            AppError::InvalidUpstream(m) => (
                String::from_str("upstream response invalid: "),
                m.clone(),
            ),
        };
        let mut t = prefix;
        t.append(detail.as_str());
        t
    }

    /// The answer to this error: its status and a body that carries its text.
    pub fn into_response(&self) -> (r: (u16, ApiError))
        ensures
            r.0 == error_status(*self),
            r.1.message@ == error_text(*self),
    {
        (self.status_code(), ApiError { message: self.message() })
    }
}

} // verus!
