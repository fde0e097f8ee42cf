//! The remote agent: its connection status and the messages exchanged with
//! it, one JSON document per line over the SSH channel.
use vstd::prelude::*;
use crate::keyed::KeyedList;
use crate::text::string_from;

verus! {

/// The connection state of a remote agent.
#[derive(Debug, Clone, Copy, PartialEq, Eq, Structural)]
pub enum AgentStatus {
    Disconnected,
    Connected,
    Error,
}

/// The text shown for a status.
pub open spec fn status_text(s: AgentStatus) -> Seq<char> {
    match s {
        AgentStatus::Disconnected => "Disconnected"@,
        AgentStatus::Connected => "Connected"@,
        AgentStatus::Error => "Error"@,
    }
}

impl AgentStatus {
    /// The text shown for this status.
    pub fn to_string(&self) -> (s: String)
        ensures
            s@ == status_text(*self),
    {
        match self {
            AgentStatus::Disconnected => string_from("Disconnected"),
            AgentStatus::Connected => string_from("Connected"),
            AgentStatus::Error => string_from("Error"),
        }
    }
}

/// A message from the local controller to the remote agent.
#[derive(Debug)]
pub enum ControllerMessage {
    Execute(ExecutionPayload),
    Health,
    Shutdown,
}

/// A message from the remote agent back to the controller.
#[derive(Debug)]
pub enum AgentMessage {
    ExecutionResult(ExecutionResult),
    HealthOk,
    Error(String),
    Shutdown,
}

/// A request for the agent to execute.
#[derive(Debug)]
pub struct ExecutionPayload {
    pub request_id: String,
    pub method: String,
    pub url: String,
    pub headers: KeyedList<String>,
    pub query_params: KeyedList<String>,
    pub body: Option<String>,
    pub timeout_ms: Option<u64>,
}

/// What the agent answers for one executed request.
#[derive(Debug)]
pub struct ExecutionResult {
    pub request_id: String,
    pub status: u16,
    pub headers: KeyedList<String>,
    pub body: String,
    pub duration_ms: u128,
    pub size_bytes: usize,
    pub timestamp: i64,
}

} // verus!
