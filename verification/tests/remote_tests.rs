use volt::agent::{AgentMessage, ExecutionResult};
use volt::executor::{ExecuteRequest, ExecuteResponse, ExecutorError};
use volt::keyed::KeyedList;
use volt::remote::{
    build_payload, connection_lost, executor_name, finish_wait, payload_for, reader_step, request_line,
    response_wait_ms, send_failed, spawn_failed, ssh_args, ReaderStep, RemoteProfile, SshConfig, WaitOutcome,
};

#[test]
fn config_test_remote_profile_creation() {
    let profile = RemoteProfile::new("prod", "bastion.example.com", "ubuntu")
        .with_port(2222)
        .with_identity("~/.ssh/prod_key");
    assert_eq!(profile.name, "prod");
    assert_eq!(profile.host, "bastion.example.com");
    assert_eq!(profile.user, "ubuntu");
    assert_eq!(profile.port, 2222);
    assert_eq!(profile.identity, Some("~/.ssh/prod_key".to_string()));
}

#[test]
fn test_ssh_config_builder() {
    let config = SshConfig::new("example.com", "ubuntu").with_port(2222).with_identity("~/.ssh/id_ed25519");
    assert_eq!(config.host, "example.com");
    assert_eq!(config.user, "ubuntu");
    assert_eq!(config.port, 2222);
    assert!(config.identity.is_some());
}

#[test]
fn integration_test_test_remote_profile_creation() {
    let profile = RemoteProfile::new("prod", "example.com", "ubuntu");
    assert_eq!(profile.name, "prod");
    assert_eq!(profile.host, "example.com");
    assert_eq!(profile.user, "ubuntu");
    assert_eq!(profile.port, 22);
    assert_eq!(profile.identity, None);
}

#[test]
fn test_remote_profile_with_identity() {
    let profile = RemoteProfile::new("dev", "dev.local", "developer").with_identity("~/.ssh/dev_key").with_port(2222);
    assert_eq!(profile.name, "dev");
    assert_eq!(profile.user, "developer");
    assert_eq!(profile.port, 2222);
    assert_eq!(profile.identity, Some("~/.ssh/dev_key".to_string()));
}

#[test]
fn test_remote_profile_validation() {
    let profile = RemoteProfile::new("staging", "staging.example.com", "ec2-user");
    assert!(!profile.name.is_empty());
    assert!(!profile.host.is_empty());
    assert!(!profile.user.is_empty());
    assert!(profile.port > 0);
}

#[test]
fn test_multiple_remote_profiles() {
    let prod = RemoteProfile::new("prod", "prod.example.com", "ubuntu").with_port(22).with_identity("~/.ssh/prod_key");
    let staging =
        RemoteProfile::new("staging", "staging.example.com", "ubuntu").with_port(2222).with_identity("~/.ssh/staging_key");
    assert_eq!(prod.name, "prod");
    assert_eq!(prod.port, 22);
    assert_eq!(staging.name, "staging");
    assert_eq!(staging.port, 2222);
}

#[test]
fn executor_is_named_after_user_and_host() {
    assert_eq!(executor_name(&SshConfig::new("prod-box", "ubuntu")), "SSH:ubuntu@prod-box");
}

#[test]
fn ssh_command_line() {
    let plain = ssh_args(&SshConfig::new("example.com", "ubuntu"));
    assert_eq!(
        plain,
        vec!["-o", "StrictHostKeyChecking=no", "-o", "UserKnownHostsFile=/dev/null", "ubuntu@example.com", "volt", "--agent"]
    );
    let full = ssh_args(&SshConfig::new("example.com", "ubuntu").with_port(2222).with_identity("~/.ssh/key"));
    assert_eq!(
        full,
        vec![
            "-o",
            "StrictHostKeyChecking=no",
            "-o",
            "UserKnownHostsFile=/dev/null",
            "-p",
            "2222",
            "-i",
            "~/.ssh/key",
            "ubuntu@example.com",
            "volt",
            "--agent"
        ]
    );
}

fn request() -> ExecuteRequest {
    ExecuteRequest {
        method: "GET".to_string(),
        url: "http://localhost:8080/api".to_string(),
        headers: KeyedList::new(),
        query_params: KeyedList::new(),
        body: None,
        timeout_ms: Some(5000),
    }
}

#[test]
fn payload_carries_the_request() {
    let p = build_payload("req-1".to_string(), request());
    assert_eq!(p.request_id, "req-1");
    assert_eq!(p.method, "GET");
    assert_eq!(p.url, "http://localhost:8080/api");
    assert_eq!(p.timeout_ms, Some(5000));
}

#[test]
fn fresh_payloads_get_distinct_uuid_ids() {
    let a = payload_for(request()).expect("random source available");
    let b = payload_for(request()).expect("random source available");
    assert_eq!(a.request_id.len(), 36);
    assert_eq!(a.request_id.chars().nth(14), Some('4'));
    assert_eq!(a.request_id.chars().filter(|c| *c == '-').count(), 4);
    assert_ne!(a.request_id, b.request_id);
    assert_eq!(a.url, "http://localhost:8080/api");
    let variant = a.request_id.chars().nth(19).unwrap();
    assert!(matches!(variant, '8' | '9' | 'a' | 'b'));
    assert!(a.request_id.chars().all(|c| c == '-' || c.is_ascii_digit() || ('a'..='f').contains(&c)));
}

#[test]
fn request_lines_end_with_newline() {
    assert_eq!(request_line("{\"Health\":null}"), "{\"Health\":null}\n");
}

#[test]
fn wait_has_five_seconds_of_headroom() {
    assert_eq!(response_wait_ms(Some(5000)), 10000);
    assert_eq!(response_wait_ms(None), 35000);
}

#[test]
fn reader_steps() {
    let result = ExecutionResult {
        request_id: "req-7".to_string(),
        status: 200,
        headers: KeyedList::new(),
        body: "ok".to_string(),
        duration_ms: 12,
        size_bytes: 2,
        timestamp: 1700000000,
    };
    match reader_step(AgentMessage::ExecutionResult(result)) {
        ReaderStep::Deliver(id, resp) => {
            assert_eq!(id, "req-7");
            assert_eq!(resp.status, 200);
            assert_eq!(resp.body, "ok");
            assert_eq!(resp.size_bytes, 2);
        }
        _ => panic!("a result is delivered"),
    }
    match reader_step(AgentMessage::HealthOk) {
        ReaderStep::Note(n) => assert_eq!(n, "[VOLT] Remote agent healthy"),
        _ => panic!("health is noted"),
    }
    match reader_step(AgentMessage::Error("boom".to_string())) {
        ReaderStep::Note(n) => assert_eq!(n, "[VOLT] Agent error: boom"),
        _ => panic!("errors are noted"),
    }
    assert!(matches!(reader_step(AgentMessage::Shutdown), ReaderStep::Stop));
}

#[test]
fn wait_outcomes() {
    let ok = ExecuteResponse { status: 200, headers: KeyedList::new(), body: String::new(), duration_ms: 1, size_bytes: 0 };
    assert_eq!(finish_wait(WaitOutcome::Answered(Ok(ok))).unwrap().status, 200);
    match finish_wait(WaitOutcome::TimedOut) {
        Err(ExecutorError::RetryableError(m)) => assert_eq!(m, "Remote request timed out"),
        _ => panic!("timeouts are retryable"),
    }
    match finish_wait(WaitOutcome::Dropped) {
        Err(ExecutorError::RemoteConnectionError(m)) => assert_eq!(m, "Response channel dropped"),
        _ => panic!("a dropped channel is a connection error"),
    }
}

#[test]
fn connection_errors() {
    assert_eq!(connection_lost().to_string(), "Remote connection error: SSH connection lost");
    assert_eq!(spawn_failed("no ssh").to_string(), "Remote connection error: SSH spawn failed: no ssh");
    assert_eq!(send_failed("closed").to_string(), "Remote connection error: Send to SSH task failed: closed");
}
