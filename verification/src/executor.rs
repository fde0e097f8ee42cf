//! Request execution: the request and response values, error
//! classification, and the retry decisions of the local executor.
use vstd::prelude::*;
use crate::keyed::KeyedList;
use crate::text::{concat, string_from};

verus! {

/// A request handed to an executor (local or remote).
#[derive(Debug)]
pub struct ExecuteRequest {
    pub method: String,
    pub url: String,
    pub headers: KeyedList<String>,
    pub query_params: KeyedList<String>,
    pub body: Option<String>,
    pub timeout_ms: Option<u64>,
}

/// A response from an executor.
#[derive(Debug)]
pub struct ExecuteResponse {
    pub status: u16,
    pub headers: KeyedList<String>,
    pub body: String,
    pub duration_ms: u128,
    pub size_bytes: usize,
}

/// What can go wrong while executing a request.
#[derive(Debug)]
pub enum ExecutorError {
    /// Transient error that can be retried (network issues, timeouts, 5xx errors).
    RetryableError(String),
    /// Permanent error that should not be retried (invalid URL, auth failure, 4xx errors).
    PermanentError(String),
    NetworkError(String),
    TimeoutError,
    InvalidUrl(String),
    SerializationError(String),
    RemoteConnectionError(String),
    AuthenticationError(String),
}

/// Transient errors: worth another attempt.
pub open spec fn spec_is_retryable(e: ExecutorError) -> bool {
    match e {
        ExecutorError::RetryableError(_) | ExecutorError::TimeoutError | ExecutorError::NetworkError(_)
        | ExecutorError::RemoteConnectionError(_) => true,
        _ => false,
    }
}

/// Permanent errors: never retried.
pub open spec fn spec_is_permanent(e: ExecutorError) -> bool {
    match e {
        ExecutorError::PermanentError(_) | ExecutorError::InvalidUrl(_) | ExecutorError::AuthenticationError(_)
        | ExecutorError::SerializationError(_) => true,
        _ => false,
    }
}

/// The text shown for an error.
pub open spec fn error_text(e: ExecutorError) -> Seq<char> {
    match e {
        ExecutorError::RetryableError(m) => "Retryable error: "@ + m@,
        ExecutorError::PermanentError(m) => "Permanent error: "@ + m@,
        ExecutorError::NetworkError(m) => "Network error: "@ + m@,
        ExecutorError::TimeoutError => "Request timed out"@,
        ExecutorError::InvalidUrl(m) => "Invalid URL: "@ + m@,
        ExecutorError::SerializationError(m) => "Serialization error: "@ + m@,
        ExecutorError::RemoteConnectionError(m) => "Remote connection error: "@ + m@,
        ExecutorError::AuthenticationError(m) => "Authentication error: "@ + m@,
    }
}

impl ExecutorError {
    /// Whether this error is transient.
    pub fn is_retryable(&self) -> (b: bool)
        ensures
            b == spec_is_retryable(*self),
    {
        match self {
            ExecutorError::RetryableError(_) | ExecutorError::TimeoutError | ExecutorError::NetworkError(_)
            | ExecutorError::RemoteConnectionError(_) => true,
            _ => false,
        }
    }

    /// Whether this error is permanent.
    pub fn is_permanent(&self) -> (b: bool)
        ensures
            b == spec_is_permanent(*self),
    {
        match self {
            ExecutorError::PermanentError(_) | ExecutorError::InvalidUrl(_) | ExecutorError::AuthenticationError(_)
            | ExecutorError::SerializationError(_) => true,
            _ => false,
        }
    }

    /// The text shown for this error.
    pub fn to_string(&self) -> (s: String)
        ensures
            s@ == error_text(*self),
    {
        match self {
            ExecutorError::RetryableError(m) => concat("Retryable error: ", m.as_str()),
            ExecutorError::PermanentError(m) => concat("Permanent error: ", m.as_str()),
            ExecutorError::NetworkError(m) => concat("Network error: ", m.as_str()),
            ExecutorError::TimeoutError => string_from("Request timed out"),
            ExecutorError::InvalidUrl(m) => concat("Invalid URL: ", m.as_str()),
            ExecutorError::SerializationError(m) => concat("Serialization error: ", m.as_str()),
            ExecutorError::RemoteConnectionError(m) => concat("Remote connection error: ", m.as_str()),
            ExecutorError::AuthenticationError(m) => concat("Authentication error: ", m.as_str()),
        }
    }

    /// A copy of this error.
    pub fn duplicate(&self) -> (e: ExecutorError)
        ensures
            e == *self,
    {
        match self {
            ExecutorError::RetryableError(m) => ExecutorError::RetryableError(m.clone()),
            ExecutorError::PermanentError(m) => ExecutorError::PermanentError(m.clone()),
            ExecutorError::NetworkError(m) => ExecutorError::NetworkError(m.clone()),
            ExecutorError::TimeoutError => ExecutorError::TimeoutError,
            ExecutorError::InvalidUrl(m) => ExecutorError::InvalidUrl(m.clone()),
            ExecutorError::SerializationError(m) => ExecutorError::SerializationError(m.clone()),
            ExecutorError::RemoteConnectionError(m) => ExecutorError::RemoteConnectionError(m.clone()),
            ExecutorError::AuthenticationError(m) => ExecutorError::AuthenticationError(m.clone()),
        }
    }
}

/// Statuses worth another attempt: every 5xx server error, 429 (too many
/// requests) and 408 (request timeout).
pub open spec fn spec_is_retryable_status(status: u16) -> bool {
    status == 408 || status == 429 || (500 <= status <= 599)
}

/// Whether an HTTP status is worth another attempt.
pub fn is_retryable_status(status: u16) -> (b: bool)
    ensures
        b == spec_is_retryable_status(status),
{
    status == 408 || status == 429 || (500 <= status && status <= 599)
}

/// How sending a request failed, as the HTTP client reports it.
#[derive(Debug)]
pub enum SendFailure {
    Timeout,
    Connect,
    Request,
    Other,
}

/// The retryable error for a failed send, with its message.
pub fn send_error(kind: SendFailure, detail: &str) -> (e: ExecutorError)
    ensures
        (e matches ExecutorError::RetryableError(m) && m@ == match kind {
            SendFailure::Timeout => "Request timed out"@,
            SendFailure::Connect => "Connection error: "@ + detail@,
            SendFailure::Request => "Request error: "@ + detail@,
            SendFailure::Other => "Network error: "@ + detail@,
        }),
{
    let m = match kind {
        SendFailure::Timeout => string_from("Request timed out"),
        SendFailure::Connect => concat("Connection error: ", detail),
        SendFailure::Request => concat("Request error: ", detail),
        SendFailure::Other => concat("Network error: ", detail),
    };
    ExecutorError::RetryableError(m)
}

/// The permanent error for a method name the HTTP client refuses.
pub fn invalid_method_error(detail: &str) -> (e: ExecutorError)
    ensures
        (e matches ExecutorError::PermanentError(m) && m@ == "Invalid HTTP method: "@ + detail@),
{
    ExecutorError::PermanentError(concat("Invalid HTTP method: ", detail))
}

/// The permanent error for a URL that does not parse.
pub fn invalid_url_error(detail: &str) -> (e: ExecutorError)
    ensures
        (e matches ExecutorError::PermanentError(m) && m@ == "Invalid URL: "@ + detail@),
{
    ExecutorError::PermanentError(concat("Invalid URL: ", detail))
}

/// What `reqwest::Method::from_bytes` reports of a method name it refuses,
/// as text; none for a name it accepts.
pub uninterp spec fn method_refusal(method: Seq<char>) -> Option<Seq<char>>;

/// What `reqwest::Url::parse` reports of a URL it refuses, as text; none for
/// a URL it accepts.
pub uninterp spec fn url_refusal(url: Seq<char>) -> Option<Seq<char>>;

/// Checks a method name with `reqwest::Method::from_bytes` and returns the
/// text of its error, if any.
#[verifier::external_body]
fn check_method(method: &str) -> (r: Option<String>)
    ensures
        r matches Some(t) ==> method_refusal(method@) == Some(t@),
        r is None ==> method_refusal(method@) is None,
{
    reqwest::Method::from_bytes(method.as_bytes()).err().map(|e| e.to_string())
}

/// Parses a URL with `reqwest::Url::parse` and returns the text of its
/// error, if any.
#[verifier::external_body]
fn check_url(url: &str) -> (r: Option<String>)
    ensures
        r matches Some(t) ==> url_refusal(url@) == Some(t@),
        r is None ==> url_refusal(url@) is None,
{
    reqwest::Url::parse(url).err().map(|e| e.to_string())
}

/// Why a request cannot be sent, as a permanent error: a refused method
/// comes first, then a refused URL.
pub open spec fn request_refusal(method: Seq<char>, url: Seq<char>) -> Option<Seq<char>> {
    match method_refusal(method) {
        Some(d) => Some("Invalid HTTP method: "@ + d),
        None => match url_refusal(url) {
            Some(d) => Some("Invalid URL: "@ + d),
            None => None,
        },
    }
}

/// The permanent error of a request whose method or URL the HTTP client
/// refuses; none for a request that can be sent.
pub fn request_error(req: &ExecuteRequest) -> (e: Option<ExecutorError>)
    ensures
        e is None <==> request_refusal(req.method@, req.url@) is None,
        e matches Some(x) ==> (x matches ExecutorError::PermanentError(m) && request_refusal(req.method@, req.url@)
            == Some(m@)),
{
    match check_method(req.method.as_str()) {
        Some(d) => Some(invalid_method_error(d.as_str())),
        None => match check_url(req.url.as_str()) {
            Some(d) => Some(invalid_url_error(d.as_str())),
            None => None,
        },
    }
}

// ---------------------------------------------------------------------------
// Retry decisions
// ---------------------------------------------------------------------------

/// Progress of a request through its attempts.
#[derive(Debug)]
pub struct RetryState {
    pub attempt: u32,
    pub max_attempts: u32,
    pub last_error: Option<ExecutorError>,
}

/// What to do after an attempt.
#[derive(Debug)]
pub enum RetryStep {
    /// Stop with this result.
    Return(Result<ExecuteResponse, ExecutorError>),
    /// Wait for the backoff of the given attempt, then attempt again.
    Retry(u32),
    /// Attempt again without waiting.
    Next,
}

impl RetryState {
    /// The state before the first attempt.
    pub fn new(max_attempts: u32) -> (s: RetryState)
        ensures
            s.attempt == 0,
            s.max_attempts == max_attempts,
            s.last_error is None,
    {
        RetryState { attempt: 0, max_attempts, last_error: None }
    }

    /// Whether another attempt is due.
    pub fn should_attempt(&self) -> (b: bool)
        ensures
            b == (self.attempt < self.max_attempts),
    {
        self.attempt < self.max_attempts
    }

    /// The error when all attempts are used up: the last error seen, or a
    /// retryable "Max retry attempts exceeded" when there was none.
    pub fn exhausted(self) -> (e: ExecutorError)
        ensures
            self.last_error matches Some(l) ==> e == l,
            self.last_error is None ==> (e matches ExecutorError::RetryableError(m) && m@ == "Max retry attempts exceeded"@),
    {
        match self.last_error {
            Some(l) => l,
            None => ExecutorError::RetryableError(string_from("Max retry attempts exceeded")),
        }
    }

    /// Records the outcome of the current attempt and decides what follows.
    /// A response is returned unless its status is retryable and attempts
    /// remain; an error is retried (after a backoff) while it is retryable and
    /// attempts remain, returned at once when permanent, and otherwise kept as
    /// the last error.
    pub fn record(&mut self, outcome: Result<ExecuteResponse, ExecutorError>) -> (step: RetryStep)
        requires
            old(self).attempt < old(self).max_attempts,
        ensures
            final(self).max_attempts == old(self).max_attempts,
            final(self).attempt <= final(self).max_attempts,
            ({
                let a = old(self).attempt;
                let more = a < old(self).max_attempts - 1;
                match outcome {
                    Ok(resp) => if spec_is_retryable_status(resp.status) && more {
                        step == RetryStep::Retry(a) && final(self).attempt == a + 1
                            && final(self).last_error == old(self).last_error
                    } else {
                        step == RetryStep::Return(Ok(resp))
                    },
                    Err(e) => {
                        &&& final(self).last_error == Some(e)
                        &&& if spec_is_retryable(e) && more {
                            step == RetryStep::Retry(a) && final(self).attempt == a + 1
                        } else if spec_is_permanent(e) {
                            step == RetryStep::Return(Err(e))
                        } else {
                            step == RetryStep::Next && final(self).attempt == a + 1
                        }
                    },
                }
            }),
    {
        let a = self.attempt;
        let more = a < self.max_attempts - 1;
        match outcome {
            Ok(resp) => {
                if is_retryable_status(resp.status) && more {
                    self.attempt = a + 1;
                    RetryStep::Retry(a)
                } else {
                    RetryStep::Return(Ok(resp))
                }
            },
            Err(e) => {
                let retry = e.is_retryable();
                let permanent = e.is_permanent();
                self.last_error = Some(e.duplicate());
                if retry && more {
                    self.attempt = a + 1;
                    RetryStep::Retry(a)
                } else if permanent {
                    RetryStep::Return(Err(e))
                } else {
                    self.attempt = a + 1;
                    RetryStep::Next
                }
            },
        }
    }
}

} // verus!
