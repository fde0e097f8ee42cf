use volt::agent::AgentStatus;

#[test]
fn test_agent_status_display() {
    assert_eq!(AgentStatus::Connected.to_string(), "Connected");
    assert_eq!(AgentStatus::Disconnected.to_string(), "Disconnected");
}

#[test]
fn agent_status_error_text() {
    assert_eq!(AgentStatus::Error.to_string(), "Error");
}
