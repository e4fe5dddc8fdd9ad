use zeptoclaw::error::ProviderError;
use zeptoclaw::error::Result;
use zeptoclaw::error::ZeptoError;

fn returns_result() -> Result<i32> {
    Ok(42)
}

#[test]
fn test_result_type() {
    assert_eq!(returns_result().unwrap(), 42);
}

#[test]
fn test_provider_error_display() {
    assert!(ProviderError::Auth("bad key".into()).to_string().contains("Authentication error"));
    assert!(ProviderError::RateLimit("quota".into()).to_string().contains("Rate limit error"));
    assert!(ProviderError::Billing("no funds".into()).to_string().contains("Billing error"));
    assert!(ProviderError::ServerError("500".into()).to_string().contains("Server error"));
    assert!(ProviderError::InvalidRequest("bad json".into()).to_string().contains("Invalid request"));
    assert!(ProviderError::ModelNotFound("gpt-99".into()).to_string().contains("Model not found"));
    assert!(ProviderError::Timeout("30s".into()).to_string().contains("Timeout"));
    assert!(ProviderError::Unknown("???".into()).to_string().contains("Unknown provider error"));
    assert!(ProviderError::Overloaded("busy".into()).to_string().contains("Overloaded error"));
    assert!(ProviderError::Format("bad id".into()).to_string().contains("Format error"));
}

#[test]
fn test_provider_error_is_retryable() {
    assert!(ProviderError::RateLimit("429".into()).is_retryable());
    assert!(ProviderError::ServerError("500".into()).is_retryable());
    assert!(ProviderError::Timeout("timeout".into()).is_retryable());
    assert!(ProviderError::Overloaded("busy".into()).is_retryable());
    assert!(!ProviderError::Auth("401".into()).is_retryable());
    assert!(!ProviderError::Billing("402".into()).is_retryable());
    assert!(!ProviderError::InvalidRequest("400".into()).is_retryable());
    assert!(!ProviderError::ModelNotFound("404".into()).is_retryable());
    assert!(!ProviderError::Unknown("???".into()).is_retryable());
    assert!(!ProviderError::Format("bad id".into()).is_retryable());
}

#[test]
fn test_provider_error_should_fallback() {
    assert!(ProviderError::RateLimit("429".into()).should_fallback());
    assert!(ProviderError::ServerError("500".into()).should_fallback());
    assert!(ProviderError::Timeout("timeout".into()).should_fallback());
    assert!(ProviderError::ModelNotFound("404".into()).should_fallback());
    assert!(ProviderError::Unknown("???".into()).should_fallback());
    assert!(ProviderError::Overloaded("busy".into()).should_fallback());
    assert!(!ProviderError::Auth("401".into()).should_fallback());
    assert!(!ProviderError::InvalidRequest("400".into()).should_fallback());
    assert!(!ProviderError::Billing("402".into()).should_fallback());
    assert!(!ProviderError::Format("bad id".into()).should_fallback());
}

#[test]
fn test_provider_error_status_code() {
    assert_eq!(ProviderError::Auth("x".into()).status_code(), Some(401));
    assert_eq!(ProviderError::RateLimit("x".into()).status_code(), Some(429));
    assert_eq!(ProviderError::Billing("x".into()).status_code(), Some(402));
    assert_eq!(ProviderError::ServerError("x".into()).status_code(), Some(500));
    assert_eq!(ProviderError::InvalidRequest("x".into()).status_code(), Some(400));
    assert_eq!(ProviderError::ModelNotFound("x".into()).status_code(), Some(404));
    assert_eq!(ProviderError::Timeout("x".into()).status_code(), None);
    assert_eq!(ProviderError::Overloaded("x".into()).status_code(), Some(503));
    assert_eq!(ProviderError::Format("x".into()).status_code(), Some(400));
    assert_eq!(ProviderError::Unknown("x".into()).status_code(), None);
}

#[test]
fn test_security_violation_display() {
    let err = ZeptoError::SecurityViolation("path traversal attempt detected".to_string());
    assert_eq!(err.to_string(), "Security violation: path traversal attempt detected");
}

#[test]
fn test_provider_typed_display() {
    let err = ZeptoError::ProviderTyped(ProviderError::Auth("invalid key".into()));
    assert_eq!(err.to_string(), "Provider error: Authentication error: invalid key");
}

#[test]
fn test_provider_error_into_zepto_error() {
    let pe = ProviderError::RateLimit("too fast".into());
    let ze: ZeptoError = pe.into();
    assert!(matches!(ze, ZeptoError::ProviderTyped(_)));
    assert!(ze.to_string().contains("Rate limit error"));
}

#[test]
fn test_provider_error_exact_display() {
    assert_eq!(ProviderError::Timeout("30s".into()).to_string(), "Timeout: 30s");
    assert_eq!(ProviderError::Format("id".into()).to_string(), "Format error: id");
}

#[test]
fn test_error_display() {
    let err = ZeptoError::Config("missing API key".to_string());
    assert_eq!(err.to_string(), "Configuration error: missing API key");
}

#[test]
fn test_error_from_io() {
    let io_err = std::io::Error::new(std::io::ErrorKind::NotFound, "file not found");
    let zepto_err: ZeptoError = io_err.into();
    assert!(matches!(zepto_err, ZeptoError::Io(_)));
}

#[test]
fn test_error_variants() {
    let _ = ZeptoError::Config("test".into());
    let _ = ZeptoError::Provider("test".into());
    let _ = ZeptoError::ProviderTyped(ProviderError::Auth("test".into()));
    let _ = ZeptoError::Channel("test".into());
    let _ = ZeptoError::Tool("test".into());
    let _ = ZeptoError::Session("test".into());
    let _ = ZeptoError::BusClosed;
    let _ = ZeptoError::NotFound("test".into());
    let _ = ZeptoError::Unauthorized("test".into());
    let _ = ZeptoError::SecurityViolation("test".into());
    let _ = ZeptoError::Safety("test".into());
    let _ = ZeptoError::Mcp("test".into());
}

#[test]
fn test_error_from_json() {
    let json_err = serde_json::from_str::<serde_json::Value>("{").unwrap_err();
    let e: ZeptoError = json_err.into();
    assert!(e.to_string().starts_with("JSON error: "));
}
