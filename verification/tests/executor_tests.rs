use volt::executor::{
    is_retryable_status, send_error, ExecuteRequest, ExecuteResponse, ExecutorError, RetryState, RetryStep, SendFailure,
};
use volt::keyed::KeyedList;

#[test]
fn test_executor_error_is_retryable() {
    assert!(ExecutorError::RetryableError("test".to_string()).is_retryable());
    assert!(ExecutorError::TimeoutError.is_retryable());
    assert!(ExecutorError::NetworkError("test".to_string()).is_retryable());
    assert!(ExecutorError::RemoteConnectionError("test".to_string()).is_retryable());

    assert!(!ExecutorError::PermanentError("test".to_string()).is_retryable());
    assert!(!ExecutorError::InvalidUrl("test".to_string()).is_retryable());
    assert!(!ExecutorError::AuthenticationError("test".to_string()).is_retryable());
    assert!(!ExecutorError::SerializationError("test".to_string()).is_retryable());
}

#[test]
fn test_executor_error_is_permanent() {
    assert!(ExecutorError::PermanentError("test".to_string()).is_permanent());
    assert!(ExecutorError::InvalidUrl("test".to_string()).is_permanent());
    assert!(ExecutorError::AuthenticationError("test".to_string()).is_permanent());
    assert!(ExecutorError::SerializationError("test".to_string()).is_permanent());

    assert!(!ExecutorError::RetryableError("test".to_string()).is_permanent());
    assert!(!ExecutorError::TimeoutError.is_permanent());
    assert!(!ExecutorError::NetworkError("test".to_string()).is_permanent());
    assert!(!ExecutorError::RemoteConnectionError("test".to_string()).is_permanent());
}

#[test]
fn test_local_executor_retryable_status() {
    assert!(is_retryable_status(408));
    assert!(is_retryable_status(429));
    assert!(is_retryable_status(500));
    assert!(is_retryable_status(502));
    assert!(is_retryable_status(503));
    assert!(is_retryable_status(504));
    assert!(!is_retryable_status(200));
    assert!(!is_retryable_status(201));
    assert!(!is_retryable_status(300));
    assert!(!is_retryable_status(301));
    assert!(!is_retryable_status(400));
    assert!(!is_retryable_status(401));
    assert!(!is_retryable_status(403));
    assert!(!is_retryable_status(404));
}

#[test]
fn test_executor_error_display() {
    assert_eq!(
        ExecutorError::RetryableError("connection failed".to_string()).to_string(),
        "Retryable error: connection failed"
    );
    assert_eq!(
        ExecutorError::PermanentError("invalid auth".to_string()).to_string(),
        "Permanent error: invalid auth"
    );
    assert_eq!(ExecutorError::TimeoutError.to_string(), "Request timed out");
    assert_eq!(ExecutorError::InvalidUrl("bad url".to_string()).to_string(), "Invalid URL: bad url");
}

#[test]
fn test_error_classification() {
    assert!(ExecutorError::RetryableError("test".to_string()).is_retryable());
    assert!(ExecutorError::TimeoutError.is_retryable());
    assert!(ExecutorError::NetworkError("test".to_string()).is_retryable());
    assert!(ExecutorError::RemoteConnectionError("test".to_string()).is_retryable());

    assert!(ExecutorError::PermanentError("test".to_string()).is_permanent());
    assert!(ExecutorError::InvalidUrl("test".to_string()).is_permanent());
    assert!(ExecutorError::AuthenticationError("test".to_string()).is_permanent());
    assert!(ExecutorError::SerializationError("test".to_string()).is_permanent());
}

#[test]
fn test_error_display() {
    let msg = "connection failed".to_string();
    assert_eq!(ExecutorError::RetryableError(msg.clone()).to_string(), "Retryable error: connection failed");
    assert_eq!(ExecutorError::PermanentError("invalid auth".to_string()).to_string(), "Permanent error: invalid auth");
    assert_eq!(ExecutorError::TimeoutError.to_string(), "Request timed out");
    assert_eq!(ExecutorError::InvalidUrl("bad url".to_string()).to_string(), "Invalid URL: bad url");
    assert_eq!(ExecutorError::NetworkError("no connection".to_string()).to_string(), "Network error: no connection");
    assert_eq!(
        ExecutorError::AuthenticationError("invalid creds".to_string()).to_string(),
        "Authentication error: invalid creds"
    );
    assert_eq!(
        ExecutorError::SerializationError("bad json".to_string()).to_string(),
        "Serialization error: bad json"
    );
    assert_eq!(
        ExecutorError::RemoteConnectionError("ssh timeout".to_string()).to_string(),
        "Remote connection error: ssh timeout"
    );
}

#[test]
fn test_network_error_retryable() {
    assert!(ExecutorError::NetworkError("connection reset".to_string()).is_retryable());
    assert!(ExecutorError::RemoteConnectionError("ssh failed".to_string()).is_retryable());
    assert!(ExecutorError::TimeoutError.is_retryable());
}

#[test]
fn test_auth_error_permanent() {
    assert!(ExecutorError::AuthenticationError("invalid key".to_string()).is_permanent());
    assert!(!ExecutorError::AuthenticationError("invalid key".to_string()).is_retryable());
}

#[test]
fn test_invalid_url_permanent() {
    assert!(ExecutorError::InvalidUrl("malformed".to_string()).is_permanent());
    assert!(!ExecutorError::InvalidUrl("malformed".to_string()).is_retryable());
}

#[test]
fn test_serialization_error_permanent() {
    assert!(ExecutorError::SerializationError("bad json".to_string()).is_permanent());
    assert!(!ExecutorError::SerializationError("bad json".to_string()).is_retryable());
}

#[test]
fn test_retryable_status_codes() {
    assert!(is_retryable_status(408));
    assert!(is_retryable_status(429));
    assert!(is_retryable_status(500));
    assert!(is_retryable_status(502));
    assert!(is_retryable_status(503));
    assert!(is_retryable_status(504));
}

#[test]
fn test_non_retryable_status_codes() {
    assert!(!is_retryable_status(200));
    assert!(!is_retryable_status(201));
    assert!(!is_retryable_status(204));
    assert!(!is_retryable_status(301));
    assert!(!is_retryable_status(302));
    assert!(!is_retryable_status(304));
    assert!(!is_retryable_status(400));
    assert!(!is_retryable_status(401));
    assert!(!is_retryable_status(403));
    assert!(!is_retryable_status(404));
}

#[test]
fn send_errors_are_retryable_with_messages() {
    match send_error(SendFailure::Timeout, "ignored") {
        ExecutorError::RetryableError(m) => assert_eq!(m, "Request timed out"),
        _ => panic!("expected a retryable error"),
    }
    match send_error(SendFailure::Connect, "refused") {
        ExecutorError::RetryableError(m) => assert_eq!(m, "Connection error: refused"),
        _ => panic!("expected a retryable error"),
    }
    match send_error(SendFailure::Request, "bad body") {
        ExecutorError::RetryableError(m) => assert_eq!(m, "Request error: bad body"),
        _ => panic!("expected a retryable error"),
    }
    match send_error(SendFailure::Other, "reset") {
        ExecutorError::RetryableError(m) => assert_eq!(m, "Network error: reset"),
        _ => panic!("expected a retryable error"),
    }
}

fn response(status: u16) -> ExecuteResponse {
    ExecuteResponse { status, headers: KeyedList::new(), body: "success".to_string(), duration_ms: 10, size_bytes: 7 }
}

#[test]
fn retries_transient_failures_then_returns_success() {
    let mut state = RetryState::new(3);
    assert!(state.should_attempt());
    match state.record(Err(ExecutorError::RetryableError("simulated failure".to_string()))) {
        RetryStep::Retry(a) => assert_eq!(a, 0),
        _ => panic!("first failure should be retried"),
    }
    assert!(state.should_attempt());
    match state.record(Err(ExecutorError::RetryableError("simulated failure".to_string()))) {
        RetryStep::Retry(a) => assert_eq!(a, 1),
        _ => panic!("second failure should be retried"),
    }
    assert!(state.should_attempt());
    match state.record(Ok(response(200))) {
        RetryStep::Return(Ok(r)) => assert_eq!(r.body, "success"),
        _ => panic!("success should be returned"),
    }
}

#[test]
fn permanent_failure_is_not_retried() {
    let mut state = RetryState::new(5);
    match state.record(Err(ExecutorError::PermanentError("invalid".to_string()))) {
        RetryStep::Return(Err(ExecutorError::PermanentError(m))) => assert_eq!(m, "invalid"),
        _ => panic!("permanent failure should be returned at once"),
    }
}

#[test]
fn retryable_status_is_retried_until_last_attempt() {
    let mut state = RetryState::new(2);
    match state.record(Ok(response(503))) {
        RetryStep::Retry(0) => {}
        _ => panic!("503 with attempts left should be retried"),
    }
    match state.record(Ok(response(503))) {
        RetryStep::Return(Ok(r)) => assert_eq!(r.status, 503),
        _ => panic!("last attempt returns the response"),
    }
}

#[test]
fn exhausted_attempts_report_last_error() {
    let mut state = RetryState::new(1);
    match state.record(Err(ExecutorError::TimeoutError)) {
        RetryStep::Next => {}
        _ => panic!("a retryable error on the last attempt moves on"),
    }
    assert!(!state.should_attempt());
    match state.exhausted() {
        ExecutorError::TimeoutError => {}
        _ => panic!("the last error is reported"),
    }
    match RetryState::new(0).exhausted() {
        ExecutorError::RetryableError(m) => assert_eq!(m, "Max retry attempts exceeded"),
        _ => panic!("no attempt made"),
    }
}

#[test]
fn every_server_error_is_retryable() {
    for status in 500..=599u16 {
        assert!(is_retryable_status(status));
    }
    assert!(!is_retryable_status(499));
    assert!(!is_retryable_status(600));
    assert!(!is_retryable_status(407));
    assert!(!is_retryable_status(409));
}

#[test]
fn test_very_short_timeout() {
    let req = ExecuteRequest {
        method: "GET".to_string(),
        url: "http://example.com".to_string(),
        headers: KeyedList::new(),
        query_params: KeyedList::new(),
        body: None,
        timeout_ms: Some(1),
    };

    assert_eq!(req.timeout_ms, Some(1));
}

#[test]
fn test_execute_request_fully_populated() {
    let mut headers = KeyedList::new();
    headers.insert("Content-Type".to_string(), "application/json".to_string());
    headers.insert("Authorization".to_string(), "Bearer token123".to_string());

    let mut params = KeyedList::new();
    params.insert("page".to_string(), "1".to_string());
    params.insert("limit".to_string(), "10".to_string());

    let req = ExecuteRequest {
        method: "POST".to_string(),
        url: "http://api.example.com/data".to_string(),
        headers,
        query_params: params,
        body: Some(r#"{"key":"value"}"#.to_string()),
        timeout_ms: Some(30000),
    };

    assert_eq!(req.method, "POST");
    assert_eq!(req.url, "http://api.example.com/data");
    assert_eq!(req.headers.entries.len(), 2);
    assert_eq!(req.query_params.entries.len(), 2);
    assert!(req.body.is_some());
    assert_eq!(req.timeout_ms, Some(30000));
}

fn request_to(method: &str, url: &str) -> ExecuteRequest {
    ExecuteRequest {
        method: method.to_string(),
        url: url.to_string(),
        headers: KeyedList::new(),
        query_params: KeyedList::new(),
        body: None,
        timeout_ms: None,
    }
}

#[test]
fn refused_methods_and_urls_are_permanent_errors() {
    assert!(volt::executor::request_error(&request_to("GET", "http://localhost:3000/users")).is_none());
    match volt::executor::request_error(&request_to("BAD METHOD", "http://localhost:3000")) {
        Some(ExecutorError::PermanentError(m)) => assert!(m.starts_with("Invalid HTTP method: ")),
        _ => panic!("a method with a space is refused"),
    }
    match volt::executor::request_error(&request_to("GET", "not a url")) {
        Some(ExecutorError::PermanentError(m)) => {
            assert!(m.starts_with("Invalid URL: "));
            assert!(m.len() > "Invalid URL: ".len());
        }
        _ => panic!("a relative URL is refused"),
    }
    // the method is checked first
    match volt::executor::request_error(&request_to("BAD METHOD", "not a url")) {
        Some(ExecutorError::PermanentError(m)) => assert!(m.starts_with("Invalid HTTP method: ")),
        _ => panic!("the method is checked first"),
    }
}
