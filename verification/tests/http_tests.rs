use volt::app::{BodyType, HttpMethod, KVRow, RequestDraft, TextBuffer};
use volt::executor::{ExecuteResponse, ExecutorError};
use volt::http::{build_execute_request, execution_error_message, response_to_http, HttpResponse};
use volt::keyed::KeyedList;
use volt::scanner::RouteInfo;

#[test]
fn mod_test_http_response_creation() {
    let response = HttpResponse {
        status_code: 200,
        latency_ms: 100,
        size_bytes: 1024,
        content_type: "application/json".to_string(),
        body: "{}".to_string(),
    };
    assert_eq!(response.status_code, 200);
    assert_eq!(response.size_bytes, 1024);
}

#[test]
fn integration_test_test_http_response_creation() {
    let response = HttpResponse {
        status_code: 200,
        latency_ms: 100,
        size_bytes: 1024,
        content_type: "application/json".to_string(),
        body: "{}".to_string(),
    };
    assert_eq!(response.status_code, 200);
    assert_eq!(response.size_bytes, 1024);
    assert_eq!(response.content_type, "application/json");
}

#[test]
fn test_empty_response_body() {
    let response = HttpResponse {
        status_code: 204,
        latency_ms: 50,
        size_bytes: 0,
        content_type: "text/plain".to_string(),
        body: String::new(),
    };
    assert_eq!(response.body.len(), 0);
    assert_eq!(response.size_bytes, 0);
}

#[test]
fn test_large_response_body() {
    let large_body = "x".repeat(1_000_000);
    let response = HttpResponse {
        status_code: 200,
        latency_ms: 500,
        size_bytes: large_body.len(),
        content_type: "text/plain".to_string(),
        body: large_body.clone(),
    };
    assert_eq!(response.size_bytes, 1_000_000);
}

fn route(method: HttpMethod, path: &str) -> RouteInfo {
    RouteInfo {
        method,
        path: path.to_string(),
        framework: "test".to_string(),
        source: "test.rs".to_string(),
        line: 1,
    }
}

fn row(key: &str, value: &str, enabled: bool) -> KVRow {
    KVRow { key: TextBuffer::new(key), value: TextBuffer::new(value), enabled }
}

#[test]
fn url_joins_base_and_path_with_one_slash() {
    let draft = RequestDraft::new("http://httpbin.org//");
    let req = build_execute_request(&route(HttpMethod::Get, "///test"), &draft);
    assert_eq!(req.url, "http://httpbin.org/test");
    assert_eq!(req.method, "GET");
    assert_eq!(req.timeout_ms, Some(30000));
    let req = build_execute_request(&route(HttpMethod::Get, "/"), &draft);
    assert_eq!(req.url, "http://httpbin.org");
}

#[test]
fn only_enabled_rows_with_keys_are_sent() {
    let mut draft = RequestDraft::new("http://api.example.com");
    draft.headers = vec![row("X-Custom-Header", "test-value", true), row("X-Off", "1", false), row("", "orphan", true)];
    draft.params = vec![row("page", "1", true), row("limit", "10", true), row("page", "2", true)];
    let req = build_execute_request(&route(HttpMethod::Post, "/data"), &draft);
    assert_eq!(req.method, "POST");
    assert_eq!(req.headers.get("X-Custom-Header"), Some(&"test-value".to_string()));
    assert!(req.headers.get("X-Off").is_none());
    assert_eq!(req.headers.entries.len(), 1);
    assert_eq!(req.query_params.get("page"), Some(&"2".to_string()));
    assert_eq!(req.query_params.get("limit"), Some(&"10".to_string()));
    assert!(req.body.is_none());
}

#[test]
fn body_announces_its_content_type() {
    let mut draft = RequestDraft::new("http://httpbin.org");
    draft.body = TextBuffer::new(r#"{"test":"data"}"#);
    draft.body_type = BodyType::Json;
    let req = build_execute_request(&route(HttpMethod::Post, "/api/data"), &draft);
    assert_eq!(req.body, Some(r#"{"test":"data"}"#.to_string()));
    assert_eq!(req.headers.get("Content-Type"), Some(&"application/json".to_string()));

    draft.body_type = BodyType::Text;
    let req = build_execute_request(&route(HttpMethod::Post, "/api/data"), &draft);
    assert_eq!(req.headers.get("Content-Type"), Some(&"text/plain".to_string()));

    draft.body_type = BodyType::FormUrlEncoded;
    let req = build_execute_request(&route(HttpMethod::Post, "/api/data"), &draft);
    assert_eq!(req.headers.get("Content-Type"), Some(&"application/x-www-form-urlencoded".to_string()));

    draft.body_type = BodyType::NoBody;
    let req = build_execute_request(&route(HttpMethod::Post, "/api/data"), &draft);
    assert!(req.headers.get("Content-Type").is_none());
    assert!(req.body.is_some());
}

#[test]
fn response_content_type_falls_back_to_text_plain() {
    let mut headers = KeyedList::new();
    headers.insert("content-type".to_string(), "application/json".to_string());
    let r = response_to_http(
        ExecuteResponse { status: 201, headers, body: "{}".to_string(), duration_ms: 3, size_bytes: 2 },
        42,
    );
    assert_eq!(r.status_code, 201);
    assert_eq!(r.latency_ms, 42);
    assert_eq!(r.content_type, "application/json");
    assert_eq!(r.body, "{}");
    let r = response_to_http(
        ExecuteResponse { status: 204, headers: KeyedList::new(), body: String::new(), duration_ms: 3, size_bytes: 0 },
        7,
    );
    assert_eq!(r.content_type, "text/plain");
}

#[test]
fn execution_errors_are_prefixed() {
    assert_eq!(
        execution_error_message(&ExecutorError::InvalidUrl("bad url".to_string())),
        "Execution error: Invalid URL: bad url"
    );
}

#[test]
fn auth_rows_are_sent_as_headers_after_the_header_rows() {
    let mut draft = RequestDraft::new("http://localhost:3000");
    draft.headers = vec![row("Authorization", "Basic old", true), row("Accept", "text/plain", true)];
    draft.auth = vec![row("Authorization", "Bearer abc123", true), row("X-Api-Key", "k", false)];
    let req = build_execute_request(&route(HttpMethod::Get, "/me"), &draft);
    assert_eq!(req.headers.get("Authorization"), Some(&"Bearer abc123".to_string()));
    assert_eq!(req.headers.get("Accept"), Some(&"text/plain".to_string()));
    assert!(req.headers.get("X-Api-Key").is_none());
    assert_eq!(req.headers.entries.len(), 3);
}
