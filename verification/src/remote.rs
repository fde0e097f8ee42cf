//! Executing requests on a remote host: the SSH connection settings, the
//! profiles of the configuration file, and the decisions of the executor
//! that talks to the remote agent (what it sends, how it reads the agent's
//! answers, and what a caller gets back).
use vstd::prelude::*;
use crate::agent::{AgentMessage, ExecutionPayload, ExecutionResult};
use crate::executor::{ExecuteRequest, ExecuteResponse, ExecutorError};
use crate::text::{concat, decimal, decimal_string, string_from};

verus! {

/// How to reach a remote host over SSH.
#[derive(Debug, Clone)]
pub struct SshConfig {
    pub host: String,
    pub user: String,
    pub port: u16,
    pub identity: Option<String>,
}

impl SshConfig {
    /// Port 22, no identity file.
    pub fn new(host: &str, user: &str) -> (c: SshConfig)
        ensures
            c.host@ == host@,
            c.user@ == user@,
            c.port == 22,
            c.identity is None,
    {
        SshConfig { host: string_from(host), user: string_from(user), port: 22, identity: None }
    }

    /// The same settings with another port.
    pub fn with_port(self, port: u16) -> (c: SshConfig)
        ensures
            c == (SshConfig { port, ..self }),
    {
        SshConfig { port, ..self }
    }

    /// The same settings with an identity file.
    pub fn with_identity(self, identity: &str) -> (c: SshConfig)
        ensures
            c.host == self.host,
            c.user == self.user,
            c.port == self.port,
            c.identity matches Some(i) && i@ == identity@,
    {
        SshConfig { identity: Some(string_from(identity)), ..self }
    }
}

/// A named remote host that can be chosen on the command line.
#[derive(Debug, Clone)]
pub struct RemoteProfile {
    pub name: String,
    pub host: String,
    pub user: String,
    pub port: u16,
    pub identity: Option<String>,
}

impl RemoteProfile {
    /// Port 22, no identity file.
    pub fn new(name: &str, host: &str, user: &str) -> (p: RemoteProfile)
        ensures
            p.name@ == name@,
            p.host@ == host@,
            p.user@ == user@,
            p.port == 22,
            p.identity is None,
    {
        RemoteProfile {
            name: string_from(name),
            host: string_from(host),
            user: string_from(user),
            port: 22,
            identity: None,
        }
    }

    /// The same profile with an identity file.
    pub fn with_identity(self, identity: &str) -> (p: RemoteProfile)
        ensures
            p.name == self.name,
            p.host == self.host,
            p.user == self.user,
            p.port == self.port,
            p.identity matches Some(i) && i@ == identity@,
    {
        RemoteProfile { identity: Some(string_from(identity)), ..self }
    }

    /// The same profile with another port.
    pub fn with_port(self, port: u16) -> (p: RemoteProfile)
        ensures
            p == (RemoteProfile { port, ..self }),
    {
        RemoteProfile { port, ..self }
    }
}

/// `user@host`.
pub open spec fn ssh_destination(c: SshConfig) -> Seq<char> {
    c.user@ + "@"@ + c.host@
}

/// The name under which a remote executor is shown: `SSH:user@host`.
pub fn executor_name(config: &SshConfig) -> (s: String)
    ensures
        s@ == "SSH:"@ + ssh_destination(*config),
{
    let d = concat(config.user.as_str(), "@");
    let d = concat(d.as_str(), config.host.as_str());
    concat("SSH:", d.as_str())
}

/// The arguments of the `ssh` command that starts the remote agent: host
/// key checks off, the port when it is not 22, the identity file when there
/// is one, then `user@host volt --agent`.
pub open spec fn ssh_arg_list(c: SshConfig) -> Seq<Seq<char>> {
    let head = seq!["-o"@, "StrictHostKeyChecking=no"@, "-o"@, "UserKnownHostsFile=/dev/null"@];
    let with_port = if c.port != 22 {
        head + seq!["-p"@, decimal(c.port as nat)]
    } else {
        head
    };
    let with_identity = match c.identity {
        Some(i) => with_port + seq!["-i"@, i@],
        None => with_port,
    };
    with_identity + seq![ssh_destination(c), "volt"@, "--agent"@]
}

/// The texts of a list of strings.
pub open spec fn texts(v: Seq<String>) -> Seq<Seq<char>> {
    v.map_values(|s: String| s@)
}

/// Appends a string and records its text.
fn push_text(v: &mut Vec<String>, s: String)
    ensures
        final(v)@ == old(v)@.push(s),
        texts(final(v)@) == texts(old(v)@).push(s@),
{
    v.push(s);
    assert(texts(v@) =~= texts(old(v)@).push(s@));
}

/// The arguments of the `ssh` command for `config`.
pub fn ssh_args(config: &SshConfig) -> (args: Vec<String>)
    ensures
        texts(args@) == ssh_arg_list(*config),
{
    let mut args: Vec<String> = Vec::new();
    assert(texts(args@) =~= Seq::<Seq<char>>::empty());
    push_text(&mut args, string_from("-o"));
    push_text(&mut args, string_from("StrictHostKeyChecking=no"));
    push_text(&mut args, string_from("-o"));
    push_text(&mut args, string_from("UserKnownHostsFile=/dev/null"));
    let ghost head = texts(args@);
    assert(head =~= seq!["-o"@, "StrictHostKeyChecking=no"@, "-o"@, "UserKnownHostsFile=/dev/null"@]);
    if config.port != 22 {
        push_text(&mut args, string_from("-p"));
        push_text(&mut args, decimal_string(config.port as u128));
        assert(texts(args@) =~= head + seq!["-p"@, decimal(config.port as nat)]);
    }
    let ghost with_port = texts(args@);
    match &config.identity {
        Some(i) => {
            push_text(&mut args, string_from("-i"));
            push_text(&mut args, i.clone());
            assert(texts(args@) =~= with_port + seq!["-i"@, i@]);
        },
        None => {},
    }
    let ghost with_identity = texts(args@);
    let d = concat(config.user.as_str(), "@");
    push_text(&mut args, concat(d.as_str(), config.host.as_str()));
    push_text(&mut args, string_from("volt"));
    push_text(&mut args, string_from("--agent"));
    assert(texts(args@) =~= with_identity + seq![ssh_destination(*config), "volt"@, "--agent"@]);
    args
}

/// A lower-case hexadecimal digit.
pub open spec fn is_lower_hex(c: char) -> bool {
    ('0' <= c && c <= '9') || ('a' <= c && c <= 'f')
}

/// The hyphenated lower-case form of a random (version 4) UUID:
/// `xxxxxxxx-xxxx-4xxx-xxxx-xxxxxxxxxxxx`.
pub open spec fn is_uuid_v4_text(s: Seq<char>) -> bool {
    &&& s.len() == 36
    &&& forall|i: int| 0 <= i < 36 ==> {
        if i == 8 || i == 13 || i == 18 || i == 23 {
            #[trigger] s[i] == '-'
        } else {
            is_lower_hex(s[i])
        }
    }
    &&& s[14] == '4'
}

/// The lower-case hexadecimal digit of a number below 16.
pub open spec fn hex_digit(n: int) -> char {
    if n < 10 {
        ((n + 48) as u32) as char
    } else {
        ((n + 87) as u32) as char
    }
}

/// Sixteen bytes with the bits of a random (version 4, RFC 4122 variant)
/// UUID set: the high nibble of byte 6 becomes 4, the two high bits of
/// byte 8 become `10`.
pub open spec fn v4_bytes(b: Seq<u8>) -> Seq<u8> {
    b.update(6, (64 + b[6] % 16) as u8).update(8, (128 + b[8] % 64) as u8)
}

/// The bytes as lower-case hexadecimal text, two digits per byte, high
/// nibble first.
pub open spec fn hex_text(b: Seq<u8>) -> Seq<char> {
    Seq::new(
        2 * b.len(),
        |i: int|
            if i % 2 == 0 {
                hex_digit((b[i / 2] / 16) as int)
            } else {
                hex_digit((b[i / 2] % 16) as int)
            },
    )
}

/// The hyphenated text of the version 4 UUID built from 16 random bytes:
/// groups of 8, 4, 4, 4 and 12 hexadecimal digits.
pub open spec fn uuid_v4_text(b: Seq<u8>) -> Seq<char> {
    let h = hex_text(v4_bytes(b));
    h.subrange(0, 8) + seq!['-'] + h.subrange(8, 12) + seq!['-'] + h.subrange(12, 16) + seq!['-']
        + h.subrange(16, 20) + seq!['-'] + h.subrange(20, 32)
}

/// The text of a UUID built from 16 bytes has the version 4 form.
pub proof fn lemma_uuid_v4_text_form(b: Seq<u8>)
    requires
        b.len() == 16,
    ensures
        is_uuid_v4_text(uuid_v4_text(b)),
{
    let v = v4_bytes(b);
    let h = hex_text(v);
    let s = uuid_v4_text(b);
    assert(h.len() == 32);
    assert forall|j: int| 0 <= j < 32 implies is_lower_hex(#[trigger] h[j]) by {
        let x = v[j / 2];
        assert(x / 16 < 16 && x % 16 < 16);
    }
    assert(v[6] / 16 == 4);
    assert(s.len() == 36);
    assert forall|i: int| 0 <= i < 36 implies {
        if i == 8 || i == 13 || i == 18 || i == 23 {
            #[trigger] s[i] == '-'
        } else {
            is_lower_hex(s[i])
        }
    } by {
        if i < 8 {
            assert(s[i] == h[i]);
        } else if 8 < i < 13 {
            assert(s[i] == h[i - 1]);
        } else if 13 < i < 18 {
            assert(s[i] == h[i - 2]);
        } else if 18 < i < 23 {
            assert(s[i] == h[i - 3]);
        } else if 23 < i {
            assert(s[i] == h[i - 4]);
        }
    }
    assert(s[14] == h[12]);
}

/// Sixteen bytes from the system's random source (`getrandom::fill`), or
/// none where the source fails. Nothing is stated of which bytes come out.
#[verifier::external_body]
fn random_bytes() -> (r: Option<[u8; 16]>)
{
    let mut bytes = [0u8; 16];
    match getrandom::fill(&mut bytes) {
        Ok(()) => Some(bytes),
        Err(_) => None,
    }
}

/// The text of the version 4 UUID built from 16 random bytes
/// (`uuid::Builder::from_random_bytes`, then the `Uuid`'s `Display`): the
/// version and variant bits are set, and the bytes are written as
/// hyphenated lower-case hexadecimal.
#[verifier::external_body]
fn uuid_text_from_bytes(bytes: [u8; 16]) -> (id: String)
    ensures
        id@ == uuid_v4_text(bytes@),
{
    uuid::Builder::from_random_bytes(bytes).into_uuid().to_string()
}

/// A fresh random request id in the hyphenated lower-case form of a
/// version 4 UUID, or none where the system's random source fails.
pub fn new_request_id() -> (id: Option<String>)
    ensures
        id matches Some(t) ==> is_uuid_v4_text(t@) && exists|b: Seq<u8>| b.len() == 16 && t@ == uuid_v4_text(b),
{
    match random_bytes() {
        Some(bytes) => {
            let t = uuid_text_from_bytes(bytes);
            proof {
                lemma_uuid_v4_text_form(bytes@);
            }
            Some(t)
        },
        None => None,
    }
}

/// The payload that carries `req` to the agent under `request_id`.
pub fn build_payload(request_id: String, req: ExecuteRequest) -> (p: ExecutionPayload)
    ensures
        p.request_id == request_id,
        p.method == req.method,
        p.url == req.url,
        p.headers == req.headers,
        p.query_params == req.query_params,
        p.body == req.body,
        p.timeout_ms == req.timeout_ms,
{
    ExecutionPayload {
        request_id,
        method: req.method,
        url: req.url,
        headers: req.headers,
        query_params: req.query_params,
        body: req.body,
        timeout_ms: req.timeout_ms,
    }
}

/// The payload for `req` under a fresh random request id; none where the
/// system's random source fails.
pub fn payload_for(req: ExecuteRequest) -> (p: Option<ExecutionPayload>)
    ensures
        p matches Some(p) ==> {
            &&& is_uuid_v4_text(p.request_id@)
            &&& p.method == req.method
            &&& p.url == req.url
            &&& p.headers == req.headers
            &&& p.query_params == req.query_params
            &&& p.body == req.body
            &&& p.timeout_ms == req.timeout_ms
        },
{
    match new_request_id() {
        Some(id) => Some(build_payload(id, req)),
        None => None,
    }
}

/// The line sent to the agent for one JSON message.
pub fn request_line(json: &str) -> (line: String)
    ensures
        line@ == json@.push('\n'),
{
    let l = concat(json, "\n");
    proof {
        reveal_strlit("\n");
    }
    assert(l@ =~= json@.push('\n'));
    l
}

/// How long to wait for the agent's answer: the request's timeout (30 s
/// when it has none) plus 5 s of headroom.
pub fn response_wait_ms(timeout_ms: Option<u64>) -> (ms: u64)
    requires
        timeout_ms matches Some(t) ==> t <= u64::MAX - 5000,
    ensures
        ms == match timeout_ms {
            Some(t) => t + 5000,
            None => 35000,
        },
{
    let t = match timeout_ms {
        Some(t) => t,
        None => 30000,
    };
    t + 5000
}

/// The response that an agent's result reports.
pub fn result_to_response(result: ExecutionResult) -> (r: ExecuteResponse)
    ensures
        r.status == result.status,
        r.headers == result.headers,
        r.body == result.body,
        r.duration_ms == result.duration_ms,
        r.size_bytes == result.size_bytes,
{
    ExecuteResponse {
        status: result.status,
        headers: result.headers,
        body: result.body,
        duration_ms: result.duration_ms,
        size_bytes: result.size_bytes,
    }
}

/// What the reader of the agent's output does with one message.
#[derive(Debug)]
pub enum ReaderStep {
    /// Resolve the pending request with this id with this response.
    Deliver(String, ExecuteResponse),
    /// Report this line on the diagnostics stream and read on.
    Note(String),
    /// The agent is shutting down: stop reading.
    Stop,
}

/// The reader's step for one message of the agent.
pub fn reader_step(msg: AgentMessage) -> (step: ReaderStep)
    ensures
        match msg {
            AgentMessage::ExecutionResult(res) => step matches ReaderStep::Deliver(id, resp)
                && id == res.request_id
                && resp.status == res.status
                && resp.headers == res.headers
                && resp.body == res.body
                && resp.duration_ms == res.duration_ms
                && resp.size_bytes == res.size_bytes,
            AgentMessage::HealthOk => step matches ReaderStep::Note(n) && n@ == "[VOLT] Remote agent healthy"@,
            AgentMessage::Error(e) => step matches ReaderStep::Note(n) && n@ == "[VOLT] Agent error: "@ + e@,
            AgentMessage::Shutdown => step is Stop,
        },
{
    match msg {
        AgentMessage::ExecutionResult(res) => {
            let id = res.request_id.clone();
            ReaderStep::Deliver(id, result_to_response(res))
        },
        AgentMessage::HealthOk => ReaderStep::Note(string_from("[VOLT] Remote agent healthy")),
        AgentMessage::Error(e) => ReaderStep::Note(concat("[VOLT] Agent error: ", e.as_str())),
        AgentMessage::Shutdown => ReaderStep::Stop,
    }
}

/// The error every pending request gets when the agent's output ends.
pub fn connection_lost() -> (e: ExecutorError)
    ensures
        e matches ExecutorError::RemoteConnectionError(m) && m@ == "SSH connection lost"@,
{
    ExecutorError::RemoteConnectionError(string_from("SSH connection lost"))
}

/// The error when the `ssh` process cannot be started.
pub fn spawn_failed(detail: &str) -> (e: ExecutorError)
    ensures
        e matches ExecutorError::RemoteConnectionError(m) && m@ == "SSH spawn failed: "@ + detail@,
{
    ExecutorError::RemoteConnectionError(concat("SSH spawn failed: ", detail))
}

/// The error when the request cannot be handed to the SSH task.
pub fn send_failed(detail: &str) -> (e: ExecutorError)
    ensures
        e matches ExecutorError::RemoteConnectionError(m) && m@ == "Send to SSH task failed: "@ + detail@,
{
    ExecutorError::RemoteConnectionError(concat("Send to SSH task failed: ", detail))
}

/// How waiting for the agent's answer to one request ended.
#[derive(Debug)]
pub enum WaitOutcome {
    /// The reader resolved the request.
    Answered(Result<ExecuteResponse, ExecutorError>),
    /// The wait outlasted its limit.
    TimedOut,
    /// The reader went away without resolving the request.
    Dropped,
}

/// What a caller of the remote executor gets for a finished wait.
pub fn finish_wait(outcome: WaitOutcome) -> (r: Result<ExecuteResponse, ExecutorError>)
    ensures
        match outcome {
            WaitOutcome::Answered(res) => r == res,
            WaitOutcome::TimedOut => (r matches Err(ExecutorError::RetryableError(m)) && m@ == "Remote request timed out"@),
            WaitOutcome::Dropped => (r matches Err(ExecutorError::RemoteConnectionError(m)) && m@ == "Response channel dropped"@),
        },
{
    match outcome {
        WaitOutcome::Answered(res) => res,
        WaitOutcome::TimedOut => Err(ExecutorError::RetryableError(string_from("Remote request timed out"))),
        WaitOutcome::Dropped => Err(ExecutorError::RemoteConnectionError(string_from("Response channel dropped"))),
    }
}

} // verus!
