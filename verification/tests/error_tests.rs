use auto_doc::errors::LlmError;

#[test]
fn exceptions_test_error_detection() {
    assert!(matches!(
        LlmError::from_error_string("Chat error: HTTP Error: HTTP status client error (429 Too Many Requests) for url (https://api.anthropic.com/v1/messages)".to_string()),
        LlmError::RateLimit(_)
    ));

    assert!(matches!(
        LlmError::from_error_string("HTTP 429 Too Many Requests".to_string()),
        LlmError::RateLimit(_)
    ));

    assert!(matches!(
        LlmError::from_error_string("Rate limit exceeded".to_string()),
        LlmError::RateLimit(_)
    ));

    assert!(matches!(
        LlmError::from_error_string("Internal Server Error 500".to_string()),
        LlmError::ServerError(_)
    ));

    assert!(matches!(
        LlmError::from_error_string(
            "Chat error: HTTP status server error (503 Service Unavailable)".to_string()
        ),
        LlmError::ServerError(_)
    ));

    assert!(matches!(
        LlmError::from_error_string("Invalid API key".to_string()),
        LlmError::Chat(_)
    ));

    assert!(matches!(
        LlmError::from_error_string(
            "Chat error: HTTP status client error (401 Unauthorized)".to_string()
        ),
        LlmError::Chat(_)
    ));
}

#[test]
fn mod_test_error_detection() {
    assert!(matches!(
        LlmError::from_error_string("Chat error: HTTP Error: HTTP status client error (429 Too Many Requests) for url (https://api.anthropic.com/v1/messages)".to_string()),
        LlmError::RateLimit(_)
    ));

    assert!(matches!(
        LlmError::from_error_string("HTTP 429 Too Many Requests".to_string()),
        LlmError::RateLimit(_)
    ));

    assert!(matches!(
        LlmError::from_error_string("Rate limit exceeded".to_string()),
        LlmError::RateLimit(_)
    ));

    assert!(matches!(
        LlmError::from_error_string("Internal Server Error 500".to_string()),
        LlmError::ServerError(_)
    ));

    assert!(matches!(
        LlmError::from_error_string(
            "Chat error: HTTP status server error (503 Service Unavailable)".to_string()
        ),
        LlmError::ServerError(_)
    ));

    assert!(matches!(
        LlmError::from_error_string("Invalid API key".to_string()),
        LlmError::Chat(_)
    ));

    assert!(matches!(
        LlmError::from_error_string(
            "Chat error: HTTP status client error (401 Unauthorized)".to_string()
        ),
        LlmError::Chat(_)
    ));
}

#[test]
fn quota_and_gateway_classifications() {
    assert!(matches!(
        LlmError::from_error_string("Quota Exceeded for the month".to_string()),
        LlmError::RateLimit(_)
    ));
    assert!(matches!(
        LlmError::from_error_string("Bad Gateway".to_string()),
        LlmError::ServerError(_)
    ));
    assert!(matches!(
        LlmError::from_error_string("gateway timeout while proxying".to_string()),
        LlmError::ServerError(_)
    ));
    assert!(matches!(
        LlmError::from_error_string("requests per minute limit hit".to_string()),
        LlmError::RateLimit(_)
    ));
}

#[test]
fn every_server_status_code_is_retryable() {
    for code in ["500", "501", "502", "503", "504"] {
        assert!(matches!(
            LlmError::from_error_string(format!("HTTP {code} from upstream")),
            LlmError::ServerError(_)
        ));
    }
    // a server-side phrase without a listed substring stays terminal
    assert!(matches!(
        LlmError::from_error_string("HTTP status server error".to_string()),
        LlmError::Chat(_)
    ));
}

#[test]
fn retryable_partition() {
    assert!(LlmError::RateLimit("x".to_string()).is_retryable());
    assert!(LlmError::ServerError("x".to_string()).is_retryable());
    assert!(!LlmError::Chat("x".to_string()).is_retryable());
    assert!(!LlmError::Build("x".to_string()).is_retryable());
    assert!(!LlmError::ResponseParsing("x".to_string()).is_retryable());
    assert!(!LlmError::SchemaSerialization("x".to_string()).is_retryable());
}
