//! The retry discipline of API requests.
//!
//! A GET request is attempted up to `max_retries` times. A success is delivered, an
//! error status other than 429 ends the request at once, and a rate-limit (429) or a
//! failure to send waits with exponential backoff and tries again. The sending and
//! sleeping are done by the caller; `RetryLoop` decides.

use vstd::prelude::*;
use std::time::Duration;

verus! {

/// The backoff before the attempt after attempt `attempt` (counted from 0), in
/// milliseconds: `2^attempt * 100`.
pub open spec fn backoff_ms(attempt: nat) -> nat
    decreases attempt,
{
    if attempt == 0 {
        100
    } else {
        2 * backoff_ms((attempt - 1) as nat)
    }
}

proof fn lemma_backoff_monotone(i: nat, j: nat)
    requires
        i <= j,
    ensures
        backoff_ms(i) <= backoff_ms(j),
    decreases j,
{
    if i < j {
        lemma_backoff_monotone(i, (j - 1) as nat);
    }
}

/// The backoff after attempt `attempt`, in milliseconds.
pub fn backoff_delay_ms(attempt: u32) -> (r: u64)
    requires
        backoff_ms(attempt as nat) <= u64::MAX,
    ensures
        r == backoff_ms(attempt as nat),
{
    let mut delay: u64 = 100;
    let mut i: u32 = 0;
    while i < attempt
        invariant
            0 <= i <= attempt,
            delay == backoff_ms(i as nat),
            backoff_ms(attempt as nat) <= u64::MAX,
        decreases attempt - i,
    {
        proof {
            lemma_backoff_monotone((i + 1) as nat, attempt as nat);
        }
        delay = delay * 2;
        i = i + 1;
    }
    delay
}

/// Each backoff is twice the one before.
pub proof fn law_backoff_doubles(attempt: nat)
    ensures
        backoff_ms(attempt + 1) == 2 * backoff_ms(attempt),
        backoff_ms(0) == 100,
{
}

/// What an attempt came to.
#[derive(Debug, Clone, Copy, PartialEq, Eq, Structural)]
pub enum AttemptOutcome {
    /// A success status: the body is the answer.
    Success,
    /// Status 429: the server asks to slow down.
    RateLimited,
    /// Any other error status.
    ErrorStatus,
    /// The request could not be sent or no response came.
    SendFailed,
}

/// What to do after an attempt.
#[derive(Debug, Clone, Copy, PartialEq, Eq, Structural)]
pub enum RetryAction {
    /// Read and return the response body.
    Deliver,
    /// Fail with the error status and the response text.
    Abort,
    /// Sleep this many milliseconds, then go on.
    Wait(u64),
    /// Go on at once.
    Proceed,
}

/// Why the attempts ran out.
#[derive(Debug, Clone, Copy, PartialEq, Eq, Structural)]
pub enum Exhaustion {
    /// Report the last failure to send.
    LastSendFailure,
    /// No failure to send was seen: report that the retries ran out.
    MaxRetriesExceeded,
}

/// The state of a request's attempts.
#[derive(Debug, Clone, Copy)]
pub struct RetryLoop {
    max_retries: u32,
    attempt: u32,
    saw_send_failure: bool,
}

impl RetryLoop {
    /// Attempts allowed.
    pub closed spec fn max_retries_spec(self) -> nat {
        self.max_retries as nat
    }

    /// Attempts made so far.
    pub closed spec fn attempts_spec(self) -> nat {
        self.attempt as nat
    }

    /// Whether some attempt failed to send.
    pub closed spec fn saw_send_failure_spec(self) -> bool {
        self.saw_send_failure
    }

    /// Whether the backoff after the current attempt fits in a `u64` when that outcome
    /// asks for one.
    pub open spec fn backoff_fits(self, outcome: AttemptOutcome) -> bool {
        (outcome == AttemptOutcome::RateLimited || (outcome == AttemptOutcome::SendFailed
            && self.attempts_spec() + 1 < self.max_retries_spec())) ==> backoff_ms(
            self.attempts_spec(),
        ) <= u64::MAX
    }

    /// No attempt made yet, `max_retries` allowed.
    pub fn new(max_retries: u32) -> (r: RetryLoop)
        ensures
            r.max_retries_spec() == max_retries,
            r.attempts_spec() == 0,
            !r.saw_send_failure_spec(),
    {
        RetryLoop { max_retries, attempt: 0, saw_send_failure: false }
    }

    /// Attempts made so far.
    pub fn attempts(&self) -> (r: u32)
        ensures
            r == self.attempts_spec(),
    {
        self.attempt
    }

    /// Whether another attempt may be made.
    pub fn can_attempt(&self) -> (r: bool)
        ensures
            r == (self.attempts_spec() < self.max_retries_spec()),
    {
        self.attempt < self.max_retries
    }

    /// Records the outcome of the current attempt and says what to do. A success is
    /// delivered and another error status aborts; a rate limit waits the backoff; a
    /// failure to send waits the backoff unless it was the last attempt.
    pub fn record(&mut self, outcome: AttemptOutcome) -> (action: RetryAction)
        requires
            old(self).attempts_spec() < old(self).max_retries_spec(),
            old(self).backoff_fits(outcome),
        ensures
            final(self).max_retries_spec() == old(self).max_retries_spec(),
            match outcome {
                AttemptOutcome::Success => action == RetryAction::Deliver && *final(self) == *old(self),
                AttemptOutcome::ErrorStatus => action == RetryAction::Abort && *final(self) == *old(self),
                AttemptOutcome::RateLimited => {
                    &&& action == RetryAction::Wait(backoff_ms(old(self).attempts_spec()) as u64)
                    &&& final(self).attempts_spec() == old(self).attempts_spec() + 1
                    &&& final(self).saw_send_failure_spec() == old(self).saw_send_failure_spec()
                },
                AttemptOutcome::SendFailed => {
                    &&& action == if old(self).attempts_spec() + 1 < old(self).max_retries_spec() {
                        RetryAction::Wait(backoff_ms(old(self).attempts_spec()) as u64)
                    } else {
                        RetryAction::Proceed
                    }
                    &&& final(self).attempts_spec() == old(self).attempts_spec() + 1
                    &&& final(self).saw_send_failure_spec()
                },
            },
    {
        match outcome {
            AttemptOutcome::Success => RetryAction::Deliver,
            AttemptOutcome::ErrorStatus => RetryAction::Abort,
            AttemptOutcome::RateLimited => {
                let delay = backoff_delay_ms(self.attempt);
                self.attempt = self.attempt + 1;
                RetryAction::Wait(delay)
            },
            AttemptOutcome::SendFailed => {
                self.saw_send_failure = true;
                let action = if self.attempt < self.max_retries - 1 {
                    RetryAction::Wait(backoff_delay_ms(self.attempt))
                } else {
                    RetryAction::Proceed
                };
                self.attempt = self.attempt + 1;
                action
            },
        }
    }

    /// The error to report once no attempt is left.
    pub fn exhaustion(&self) -> (r: Exhaustion)
        ensures
            r == if self.saw_send_failure_spec() {
                Exhaustion::LastSendFailure
            } else {
                Exhaustion::MaxRetriesExceeded
            },
    {
        if self.saw_send_failure {
            Exhaustion::LastSendFailure
        } else {
            Exhaustion::MaxRetriesExceeded
        }
    }
}

/// reqwest's asynchronous HTTP client, carried through as an opaque value.
#[verifier::external_type_specification]
#[verifier::external_body]
pub struct ExClient(reqwest::Client);

/// reqwest's error, carried through as an opaque value.
#[verifier::external_type_specification]
#[verifier::external_body]
pub struct ExReqwestError(reqwest::Error);

/// reqwest: `Client::clone`, another handle on the same client (it shares the
/// connection pool). Nothing is claimed of the result.
pub assume_specification[ <reqwest::Client as Clone>::clone ](client: &reqwest::Client) -> reqwest::Client;

/// reqwest's HTTP client together with the request timeout it was built with.
#[derive(Debug, Clone)]
pub struct HttpClient {
    inner: reqwest::Client,
    timeout_secs: u64,
}

/// reqwest: `Client::builder().timeout(..).build()`, an HTTP client whose requests time
/// out after `timeout_secs` seconds, held with that timeout. Building can fail (TLS
/// back end or resolver set-up); which outcome comes is not claimed.
#[verifier::external_body]
fn build_http_client(timeout_secs: u64) -> (r: Result<HttpClient, reqwest::Error>)
    ensures
        r matches Ok(c) ==> c.timeout_secs == timeout_secs,
{
    match reqwest::Client::builder().timeout(Duration::from_secs(timeout_secs)).build() {
        Ok(inner) => Ok(HttpClient { inner, timeout_secs }),
        Err(e) => Err(e),
    }
}

/// Why an API client could not be created: the HTTP client failed to build.
#[derive(Debug)]
pub struct ClientBuildError {
    pub cause: reqwest::Error,
}

/// Seconds after which a request times out.
pub open spec fn request_timeout_secs() -> nat {
    30
}

/// Attempts a request makes unless told otherwise.
pub open spec fn default_max_retries() -> nat {
    3
}

/// A client for one API: its HTTP client, its base URL and how many attempts a request makes.
#[derive(Debug, Clone)]
pub struct ApiClient {
    client: HttpClient,
    base_url: String,
    max_retries: u32,
}

impl ApiClient {
    /// The base URL.
    pub closed spec fn base_url_spec(&self) -> Seq<char> {
        self.base_url@
    }

    /// Attempts per request.
    pub closed spec fn max_retries_spec(&self) -> nat {
        self.max_retries as nat
    }

    /// The HTTP client the value holds.
    pub closed spec fn http_spec(&self) -> reqwest::Client {
        self.client.inner
    }

    /// Seconds after which the HTTP client's requests time out.
    pub closed spec fn timeout_secs_spec(&self) -> nat {
        self.client.timeout_secs as nat
    }

    /// A client for the API at `base_url`, with a 30 s request timeout and three attempts
    /// per request, unless the HTTP client cannot be built.
    pub fn new(base_url: String) -> (r: Result<ApiClient, ClientBuildError>)
        ensures
            r matches Ok(c) ==> {
                &&& c.base_url_spec() == base_url@
                &&& c.max_retries_spec() == default_max_retries()
                &&& c.timeout_secs_spec() == request_timeout_secs()
            },
    {
        match build_http_client(30) {
            Ok(client) => Ok(ApiClient { client, base_url, max_retries: 3 }),
            Err(cause) => Err(ClientBuildError { cause }),
        }
    }

    /// The same client, making `max_retries` attempts per request.
    pub fn with_max_retries(self, max_retries: u32) -> (r: ApiClient)
        ensures
            r.base_url_spec() == self.base_url_spec(),
            r.max_retries_spec() == max_retries,
            r.http_spec() == self.http_spec(),
            r.timeout_secs_spec() == self.timeout_secs_spec(),
    {
        let mut c = self;
        c.max_retries = max_retries;
        c
    }

    /// The base URL requests are made under.
    pub fn base_url(&self) -> (r: &str)
        ensures
            r@ == self.base_url_spec(),
    {
        self.base_url.as_str()
    }

    /// Seconds after which requests time out.
    pub fn timeout_secs(&self) -> (r: u64)
        ensures
            r == self.timeout_secs_spec(),
    {
        self.client.timeout_secs
    }

    /// Attempts per request.
    pub fn max_retries(&self) -> (r: u32)
        ensures
            r == self.max_retries_spec(),
    {
        self.max_retries
    }

    /// The HTTP client requests are sent with.
    pub fn http(&self) -> (r: &reqwest::Client)
        ensures
            *r == self.http_spec(),
    {
        &self.client.inner
    }

    /// A fresh attempt count for one request.
    pub fn retry_loop(&self) -> (r: RetryLoop)
        ensures
            r.max_retries_spec() == self.max_retries_spec(),
            r.attempts_spec() == 0,
            !r.saw_send_failure_spec(),
    {
        RetryLoop::new(self.max_retries)
    }
}

} // verus!
