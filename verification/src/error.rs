//! Error types: the classification of LLM provider failures, and the
//! library's general error.

use vstd::prelude::*;
use vstd::std_specs::convert::FromSpecImpl;

verus! {

/// Classification of LLM provider failures, for retry and fallback decisions.
#[derive(Debug)]
pub enum ProviderError {
    /// 401: invalid API key or authentication failure.
    Auth(String),
    /// 429: rate limit or quota exceeded.
    RateLimit(String),
    /// 402: payment required or billing issue.
    Billing(String),
    /// 500/502/503/504: server-side errors.
    ServerError(String),
    /// 400: bad request, invalid JSON, malformed parameters.
    InvalidRequest(String),
    /// 404: model not found or endpoint not available.
    ModelNotFound(String),
    /// Connection or read timeout.
    Timeout(String),
    /// Unrecognized errors.
    Unknown(String),
    /// The provider is overloaded: retry with backoff.
    Overloaded(String),
    /// Request format error (e.g. a malformed tool-use id): do not retry.
    Format(String),
}

impl ProviderError {
    /// Transient failures: rate limits, server errors, timeouts, overload.
    pub open spec fn retryable(self) -> bool {
        self is RateLimit || self is ServerError || self is Timeout || self is Overloaded
    }

    /// Failures that another provider may not share: all but authentication,
    /// invalid requests, billing and format errors.
    pub open spec fn falls_back(self) -> bool {
        !(self is Auth || self is InvalidRequest || self is Billing || self is Format)
    }

    /// The HTTP status that goes with each kind of failure.
    pub open spec fn status(self) -> Option<u16> {
        match self {
            ProviderError::Auth(_) => Some(401),
            ProviderError::RateLimit(_) => Some(429),
            ProviderError::Billing(_) => Some(402),
            ProviderError::ServerError(_) => Some(500),
            ProviderError::InvalidRequest(_) => Some(400),
            ProviderError::ModelNotFound(_) => Some(404),
            ProviderError::Timeout(_) => None,
            ProviderError::Overloaded(_) => Some(503),
            ProviderError::Format(_) => Some(400),
            ProviderError::Unknown(_) => None,
        }
    }

    /// The message carried by the error.
    pub open spec fn message(self) -> Seq<char> {
        match self {
            ProviderError::Auth(m) => m@,
            ProviderError::RateLimit(m) => m@,
            ProviderError::Billing(m) => m@,
            ProviderError::ServerError(m) => m@,
            ProviderError::InvalidRequest(m) => m@,
            ProviderError::ModelNotFound(m) => m@,
            ProviderError::Timeout(m) => m@,
            ProviderError::Unknown(m) => m@,
            ProviderError::Overloaded(m) => m@,
            ProviderError::Format(m) => m@,
        }
    }

    /// The text put in front of the message when the error is displayed.
    pub open spec fn prefix(self) -> Seq<char> {
        match self {
            ProviderError::Auth(_) => "Authentication error: "@,
            ProviderError::RateLimit(_) => "Rate limit error: "@,
            ProviderError::Billing(_) => "Billing error: "@,
            ProviderError::ServerError(_) => "Server error: "@,
            ProviderError::InvalidRequest(_) => "Invalid request: "@,
            ProviderError::ModelNotFound(_) => "Model not found: "@,
            ProviderError::Timeout(_) => "Timeout: "@,
            ProviderError::Unknown(_) => "Unknown provider error: "@,
            ProviderError::Overloaded(_) => "Overloaded error: "@,
            ProviderError::Format(_) => "Format error: "@,
        }
    }

    /// Returns `true` if this error is transient and the request should be retried.
    pub fn is_retryable(&self) -> (b: bool)
        ensures
            b == self.retryable(),
    {
        match self {
            ProviderError::RateLimit(_) | ProviderError::ServerError(_) | ProviderError::Timeout(_)
            | ProviderError::Overloaded(_) => true,
            _ => false,
        }
    }

    /// Returns `true` if this error should trigger a fallback to a secondary provider.
    pub fn should_fallback(&self) -> (b: bool)
        ensures
            b == self.falls_back(),
    {
        match self {
            ProviderError::Auth(_) | ProviderError::InvalidRequest(_) | ProviderError::Billing(_)
            | ProviderError::Format(_) => false,
            _ => true,
        }
    }

    /// Returns the HTTP status code associated with this error, if applicable.
    pub fn status_code(&self) -> (r: Option<u16>)
        ensures
            r == self.status(),
    {
        match self {
            ProviderError::Auth(_) => Some(401),
            ProviderError::RateLimit(_) => Some(429),
            ProviderError::Billing(_) => Some(402),
            ProviderError::ServerError(_) => Some(500),
            ProviderError::InvalidRequest(_) => Some(400),
            ProviderError::ModelNotFound(_) => Some(404),
            ProviderError::Timeout(_) => None,
            ProviderError::Overloaded(_) => Some(503),
            ProviderError::Format(_) => Some(400),
            ProviderError::Unknown(_) => None,
        }
    }

    /// The displayed form of the error: a kind-specific prefix, then the message.
    pub fn to_string(&self) -> (r: String)
        ensures
            r@ == self.prefix() + self.message(),
    {
        let (mut s, m) = match self {
            ProviderError::Auth(m) => (String::from_str("Authentication error: "), m),
            ProviderError::RateLimit(m) => (String::from_str("Rate limit error: "), m),
            ProviderError::Billing(m) => (String::from_str("Billing error: "), m),
            ProviderError::ServerError(m) => (String::from_str("Server error: "), m),
            ProviderError::InvalidRequest(m) => (String::from_str("Invalid request: "), m),
            ProviderError::ModelNotFound(m) => (String::from_str("Model not found: "), m),
            ProviderError::Timeout(m) => (String::from_str("Timeout: "), m),
            ProviderError::Unknown(m) => (String::from_str("Unknown provider error: "), m),
            ProviderError::Overloaded(m) => (String::from_str("Overloaded error: "), m),
            ProviderError::Format(m) => (String::from_str("Format error: "), m),
        };
        s.append(m.as_str());
        s
    }
}

/// Every retryable error also falls back to another provider, and an error
/// stays with the current provider exactly when its status is a client error
/// (400, 401 or 402).
pub proof fn lemma_provider_error_policy(e: ProviderError)
    ensures
        e.retryable() ==> e.falls_back(),
        !e.falls_back() <==> (e.status() matches Some(c) && (c == 400 || c == 401 || c == 402)),
        e.retryable() ==> (e.status() is None || e.status() == Some(429u16) || e.status() == Some(
            500u16,
        ) || e.status() == Some(503u16)),
{
}

/// `std::io::Error`, carried through unchanged.
#[verifier::external_type_specification]
#[verifier::external_body]
pub struct ExIoError(std::io::Error);

/// `serde_json::Error`, carried through unchanged.
#[verifier::external_type_specification]
#[verifier::external_body]
pub struct ExJsonError(serde_json::Error);

/// `reqwest::Error`, carried through unchanged.
#[verifier::external_type_specification]
#[verifier::external_body]
pub struct ExHttpError(reqwest::Error);

/// The primary error type.
#[derive(Debug)]
pub enum ZeptoError {
    /// Configuration errors (invalid config, missing required fields, ...).
    Config(String),
    /// Provider errors described by text.
    Provider(String),
    /// Classified provider errors.
    ProviderTyped(ProviderError),
    /// Channel errors (connection failures, message routing issues, ...).
    Channel(String),
    /// Tool execution errors.
    Tool(String),
    /// Session management errors.
    Session(String),
    /// I/O errors.
    Io(std::io::Error),
    /// JSON serialization/deserialization errors.
    Json(serde_json::Error),
    /// HTTP request errors.
    Http(reqwest::Error),
    /// The message bus closed unexpectedly.
    BusClosed,
    /// Resource not found.
    NotFound(String),
    /// Authentication or authorization failures.
    Unauthorized(String),
    /// Security violations (path traversal attempts, blocked commands, ...).
    SecurityViolation(String),
    /// Safety layer violations (prompt injection, credential leaks, ...).
    Safety(String),
    /// MCP (Model Context Protocol) errors.
    Mcp(String),
}

/// A `Result` whose error is `ZeptoError`.
pub type Result<T> = std::result::Result<T, ZeptoError>;

impl From<ProviderError> for ZeptoError {
    fn from(err: ProviderError) -> (r: Self) {
        ZeptoError::ProviderTyped(err)
    }
}

impl FromSpecImpl<ProviderError> for ZeptoError {
    open spec fn obeys_from_spec() -> bool {
        true
    }

    open spec fn from_spec(err: ProviderError) -> Self {
        ZeptoError::ProviderTyped(err)
    }
}

impl From<std::io::Error> for ZeptoError {
    fn from(err: std::io::Error) -> (r: Self) {
        ZeptoError::Io(err)
    }
}

impl FromSpecImpl<std::io::Error> for ZeptoError {
    open spec fn obeys_from_spec() -> bool {
        true
    }

    open spec fn from_spec(err: std::io::Error) -> Self {
        ZeptoError::Io(err)
    }
}

impl From<serde_json::Error> for ZeptoError {
    fn from(err: serde_json::Error) -> (r: Self) {
        ZeptoError::Json(err)
    }
}

impl FromSpecImpl<serde_json::Error> for ZeptoError {
    open spec fn obeys_from_spec() -> bool {
        true
    }

    open spec fn from_spec(err: serde_json::Error) -> Self {
        ZeptoError::Json(err)
    }
}

impl From<reqwest::Error> for ZeptoError {
    fn from(err: reqwest::Error) -> (r: Self) {
        ZeptoError::Http(err)
    }
}

impl FromSpecImpl<reqwest::Error> for ZeptoError {
    open spec fn obeys_from_spec() -> bool {
        true
    }

    open spec fn from_spec(err: reqwest::Error) -> Self {
        ZeptoError::Http(err)
    }
}

/// `Display` of a `std::io::Error` (wording comes from the OS; nothing is claimed).
#[verifier::external_body]
fn io_error_text(e: &std::io::Error) -> String {
    e.to_string()
}

/// `Display` of a `serde_json::Error` (nothing is claimed of the wording).
#[verifier::external_body]
pub(crate) fn json_error_text(e: &serde_json::Error) -> String {
    e.to_string()
}

/// `Display` of a `reqwest::Error` (nothing is claimed of the wording).
#[verifier::external_body]
fn http_error_text(e: &reqwest::Error) -> String {
    e.to_string()
}

impl ZeptoError {
    /// The prefix of the displayed form of an error that carries text.
    pub open spec fn text_prefix(self) -> Seq<char> {
        match self {
            ZeptoError::Config(_) => "Configuration error: "@,
            ZeptoError::Provider(_) => "Provider error: "@,
            ZeptoError::Channel(_) => "Channel error: "@,
            ZeptoError::Tool(_) => "Tool error: "@,
            ZeptoError::Session(_) => "Session error: "@,
            ZeptoError::NotFound(_) => "Not found: "@,
            ZeptoError::Unauthorized(_) => "Unauthorized: "@,
            ZeptoError::SecurityViolation(_) => "Security violation: "@,
            ZeptoError::Safety(_) => "Safety violation: "@,
            ZeptoError::Mcp(_) => "MCP error: "@,
            _ => Seq::empty(),
        }
    }

    /// The displayed form of the error.
    pub fn to_string(&self) -> (r: String)
        ensures
            match self {
                ZeptoError::Config(m) => r@ == self.text_prefix() + m@,
                ZeptoError::Provider(m) => r@ == self.text_prefix() + m@,
                ZeptoError::Channel(m) => r@ == self.text_prefix() + m@,
                ZeptoError::Tool(m) => r@ == self.text_prefix() + m@,
                ZeptoError::Session(m) => r@ == self.text_prefix() + m@,
                ZeptoError::NotFound(m) => r@ == self.text_prefix() + m@,
                ZeptoError::Unauthorized(m) => r@ == self.text_prefix() + m@,
                ZeptoError::SecurityViolation(m) => r@ == self.text_prefix() + m@,
                ZeptoError::Safety(m) => r@ == self.text_prefix() + m@,
                ZeptoError::Mcp(m) => r@ == self.text_prefix() + m@,
                ZeptoError::ProviderTyped(p) => r@ == "Provider error: "@ + p.prefix() + p.message(),
                ZeptoError::BusClosed => r@ == "Bus error: channel closed"@,
                ZeptoError::Io(_) => starts_with_text(r@, "IO error: "@),
                ZeptoError::Json(_) => starts_with_text(r@, "JSON error: "@),
                ZeptoError::Http(_) => starts_with_text(r@, "HTTP error: "@),
            },
    {
        let (mut s, m) = match self {
            ZeptoError::Config(m) => (String::from_str("Configuration error: "), m),
            ZeptoError::Provider(m) => (String::from_str("Provider error: "), m),
            ZeptoError::Channel(m) => (String::from_str("Channel error: "), m),
            ZeptoError::Tool(m) => (String::from_str("Tool error: "), m),
            ZeptoError::Session(m) => (String::from_str("Session error: "), m),
            ZeptoError::NotFound(m) => (String::from_str("Not found: "), m),
            ZeptoError::Unauthorized(m) => (String::from_str("Unauthorized: "), m),
            ZeptoError::SecurityViolation(m) => (String::from_str("Security violation: "), m),
            ZeptoError::Safety(m) => (String::from_str("Safety violation: "), m),
            ZeptoError::Mcp(m) => (String::from_str("MCP error: "), m),
            ZeptoError::ProviderTyped(p) => {
                let mut s = String::from_str("Provider error: ");
                let inner = p.to_string();
                s.append(inner.as_str());
                return s;
            },
            ZeptoError::BusClosed => {
                return String::from_str("Bus error: channel closed");
            },
            ZeptoError::Io(e) => {
                let mut s = String::from_str("IO error: ");
                let ghost p = s@;
                let t = io_error_text(e);
                s.append(t.as_str());
                proof {
                    lemma_starts_with_concat(p, t@);
                }
                return s;
            },
            ZeptoError::Json(e) => {
                let mut s = String::from_str("JSON error: ");
                let ghost p = s@;
                let t = json_error_text(e);
                s.append(t.as_str());
                proof {
                    lemma_starts_with_concat(p, t@);
                }
                return s;
            },
            ZeptoError::Http(e) => {
                let mut s = String::from_str("HTTP error: ");
                let ghost p = s@;
                let t = http_error_text(e);
                s.append(t.as_str());
                proof {
                    lemma_starts_with_concat(p, t@);
                }
                return s;
            },
        };
        s.append(m.as_str());
        s
    }
}

pub proof fn lemma_starts_with_concat(p: Seq<char>, x: Seq<char>)
    ensures
        starts_with_text(p + x, p),
{
    assert((p + x).subrange(0, p.len() as int) =~= p);
}

/// Whether `s` begins with `p`.
pub open spec fn starts_with_text(s: Seq<char>, p: Seq<char>) -> bool {
    p.len() <= s.len() && s.subrange(0, p.len() as int) == p
}

} // verus!
