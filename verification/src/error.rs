//! What can go wrong with a language-model provider.

use crate::text::{decimal, decimal_text};
use vstd::prelude::*;

verus! {

/// What the `serde_json` crate displays for one of its errors.
pub uninterp spec fn json_error_display(error: serde_json::Error) -> Seq<char>;

/// `serde_json::Error`'s `Display`. The text is a function of the error.
#[verifier::external_body]
fn json_error_text(error: &serde_json::Error) -> (text: String)
    ensures
        text@ == json_error_display(*error),
{
    error.to_string()
}

/// An error of the HTTP transport.
#[verifier::external_type_specification]
#[verifier::external_body]
pub struct ExHttpError(reqwest::Error);

/// Whether an error of the `reqwest` crate is that the time ran out.
pub uninterp spec fn http_error_timeout(error: reqwest::Error) -> bool;

/// Whether an error of the `reqwest` crate is that no connection could be made.
pub uninterp spec fn http_error_connect(error: reqwest::Error) -> bool;

/// What the `reqwest` crate displays for one of its errors.
pub uninterp spec fn http_error_display(error: reqwest::Error) -> Seq<char>;

/// `reqwest::Error::is_timeout`. It is a function of the error.
#[verifier::external_body]
fn is_timeout(error: &reqwest::Error) -> (timeout: bool)
    ensures
        timeout == http_error_timeout(*error),
{
    error.is_timeout()
}

/// `reqwest::Error::is_connect`. It is a function of the error.
#[verifier::external_body]
fn is_connect(error: &reqwest::Error) -> (connect: bool)
    ensures
        connect == http_error_connect(*error),
{
    error.is_connect()
}

/// `reqwest::Error`'s `Display`. The text is a function of the error.
#[verifier::external_body]
fn http_error_text(error: &reqwest::Error) -> (text: String)
    ensures
        text@ == http_error_display(*error),
{
    error.to_string()
}

/// Result alias used by everything that talks to a provider.
pub type LlmResult<T> = Result<T, LlmError>;

/// A request that got no response.
#[derive(Debug)]
pub struct HttpFailure {
    /// What the transport says happened.
    pub message: String,
    /// Whether the time for the request ran out.
    pub timeout: bool,
    /// Whether no connection could be made.
    pub connect: bool,
}

/// Errors raised by providers.
#[derive(Debug)]
#[non_exhaustive]
pub enum LlmError {
    /// Underlying HTTP failure.
    Http(HttpFailure),
    /// Provider returned a non-2xx status.
    Provider {
        /// HTTP status code.
        status: u16,
        /// Response body (truncated).
        body: String,
    },
    /// JSON (de)serialization failure.
    Serde(String),
    /// Provider gave a response with unexpected shape (e.g. no tool use block
    /// where structured output was requested).
    UnexpectedShape(String),
    /// Configured provider lacks what it needs.
    NotConfigured(String),
    /// Provider authentication failed or expired.
    Auth(String),
    /// JSON schema for structured output could not be derived.
    Schema(String),
}

/// Whether an HTTP status asks the client to try again: too many requests, or a
/// failure of the server.
pub open spec fn is_transient_status(status: int) -> bool {
    status == 429 || 500 <= status <= 599
}

impl LlmError {
    /// Whether a second, identical request could plausibly succeed.
    pub open spec fn spec_is_transient(&self) -> bool {
        match *self {
            LlmError::Provider { status, .. } => is_transient_status(status as int),
            LlmError::Http(failure) => failure.timeout || failure.connect,
            _ => false,
        }
    }

    /// What the error says.
    pub open spec fn display(&self) -> Seq<char> {
        match *self {
            LlmError::Http(failure) => "http: "@ + failure.message@,
            LlmError::Provider { status, body } => "provider error "@ + decimal(status as nat)
                + ": "@ + body@,
            LlmError::Serde(text) => "serde: "@ + text@,
            LlmError::UnexpectedShape(text) => "unexpected response shape: "@ + text@,
            LlmError::NotConfigured(text) => "provider not configured: "@ + text@,
            LlmError::Auth(text) => "auth: "@ + text@,
            LlmError::Schema(text) => "schema: "@ + text@,
        }
    }

    /// Whether this failure is worth a short, bounded retry.
    ///
    /// True only for errors that a subsequent identical request could plausibly
    /// succeed on: a server-side `Provider` status (`429` or any `5xx`), or an
    /// `Http` timeout or connect failure. Everything else is deterministic:
    /// retrying only burns another expensive call.
    #[must_use]
    pub fn is_transient(&self) -> (transient: bool)
        ensures
            transient == self.spec_is_transient(),
    {
        match self {
            LlmError::Provider { status, .. } => *status == 429 || (500 <= *status && *status
                <= 599),
            LlmError::Http(failure) => failure.timeout || failure.connect,
            _ => false,
        }
    }

    /// What the error says.
    pub fn message(&self) -> (text: String)
        ensures
            text@ == self.display(),
    {
        let mut text = String::new();
        match self {
            LlmError::Http(failure) => {
                text.append("http: ");
                text.append(failure.message.as_str());
            },
            LlmError::Provider { status, body } => {
                text.append("provider error ");
                text.append(decimal_text(*status as u64).as_str());
                text.append(": ");
                text.append(body.as_str());
            },
            LlmError::Serde(detail) => {
                text.append("serde: ");
                text.append(detail.as_str());
            },
            LlmError::UnexpectedShape(detail) => {
                text.append("unexpected response shape: ");
                text.append(detail.as_str());
            },
            LlmError::NotConfigured(detail) => {
                text.append("provider not configured: ");
                text.append(detail.as_str());
            },
            LlmError::Auth(detail) => {
                text.append("auth: ");
                text.append(detail.as_str());
            },
            LlmError::Schema(detail) => {
                text.append("schema: ");
                text.append(detail.as_str());
            },
        }
        text
    }
}

impl From<reqwest::Error> for LlmError {
    fn from(value: reqwest::Error) -> (error: Self)
        ensures
            error is Http,
            error->Http_0.message@ == http_error_display(value),
            error->Http_0.timeout == http_error_timeout(value),
            error->Http_0.connect == http_error_connect(value),
            error.spec_is_transient() == (http_error_timeout(value) || http_error_connect(value)),
    {
        LlmError::Http(
            HttpFailure {
                message: http_error_text(&value),
                timeout: is_timeout(&value),
                connect: is_connect(&value),
            },
        )
    }
}

impl From<serde_json::Error> for LlmError {
    fn from(value: serde_json::Error) -> (error: Self)
        ensures
            error is Serde,
            error->Serde_0@ == json_error_display(value),
    {
        LlmError::Serde(json_error_text(&value))
    }
}

// Two strings of the same characters need not be the same value, so what
// `from` gives is said by its own postcondition alone.
impl vstd::std_specs::convert::FromSpecImpl<reqwest::Error> for LlmError {
    open spec fn obeys_from_spec() -> bool {
        false
    }

    open spec fn from_spec(value: reqwest::Error) -> Self {
        arbitrary()
    }
}

impl vstd::std_specs::convert::FromSpecImpl<serde_json::Error> for LlmError {
    open spec fn obeys_from_spec() -> bool {
        false
    }

    open spec fn from_spec(value: serde_json::Error) -> Self {
        arbitrary()
    }
}

} // verus!
