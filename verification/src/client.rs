//! The CLI's calls to the desktop control plane, one decision at a time.
//!
//! A call is attempted at most `MAX_RETRIES + 1` times. Before each attempt
//! the circuit breaker is asked whether calls may go out; after it, what
//! came back decides whether to retry (reads only, and only after a
//! transport or decoding failure), succeed, or fail. Every error text that
//! reaches the caller is scrubbed of credentials first.

use vstd::prelude::*;
use crate::envelope::ApiError;
use crate::redact::{redact, redacted};
use crate::resilience::{backoff_ms, CircuitBreaker};
use crate::text::{chars_of, extend_str, push_decimal, decimal, string_from};

verus! {

/// A failed call: an error code and a scrubbed message.
#[derive(Debug)]
pub struct HttpError {
    pub code: String,
    pub message: String,
}

/// How many times a failed read is retried.
pub const MAX_RETRIES: u32 = 2;

/// What one attempt of a call gave.
#[derive(Debug)]
pub enum Exchange {
    /// The request could not be sent; the transport's error text.
    SendFailed(String),
    /// The reply was not an envelope; the decoder's error text.
    BadJson(String),
    /// An envelope came back with the HTTP status (as a number and as its
    /// text, such as `409 Conflict`).
    Replied { status: u16, status_text: String, ok: bool, error: Option<ApiError> },
}

/// What the caller does next.
#[derive(Debug)]
pub enum RequestStep {
    /// Wait the attempt's backoff, then try again.
    Retry,
    /// Return the envelope's data.
    Succeed,
    /// Return this error.
    Fail(HttpError),
}

/// The error a call fails with when the breaker is open.
pub open spec fn circuit_open_message() -> Seq<char> {
    "Capto control plane unavailable (circuit open). Start Capto and retry."@
}

/// The view of a failure: code and message.
pub open spec fn fail_view(s: RequestStep) -> Option<(Seq<char>, Seq<char>)> {
    match s {
        RequestStep::Fail(e) => Some((e.code@, e.message@)),
        _ => None,
    }
}

/// Before an attempt at `now`: the error to fail with when the breaker
/// forbids calls, else nothing.
pub fn gate(breaker: &CircuitBreaker, now: u64) -> (r: Option<HttpError>)
    ensures
        r is None <==> breaker.permits(now),
        r matches Some(e) ==> e.code@ == "desktopUnavailable"@ && e.message@
            == circuit_open_message(),
{
    if breaker.allow(now) {
        None
    } else {
        Some(
            HttpError {
                code: crate::text::owned("desktopUnavailable"),
                message: crate::text::owned(
                    "Capto control plane unavailable (circuit open). Start Capto and retry.",
                ),
            },
        )
    }
}

/// The code of a failed envelope that carried no error: a state conflict
/// for 409, else a plain error.
pub open spec fn fallback_code(status: u16) -> Seq<char> {
    if status == 409 {
        "stateConflict"@
    } else {
        "error"@
    }
}

/// Whether an attempt numbered `attempt` (from 0) that failed in transit
/// is retried.
pub open spec fn retries(attempt: usize, retriable: bool) -> bool {
    retriable && attempt < MAX_RETRIES
}

/// What follows an attempt: the step, as a failure view, and whether the
/// breaker records a failure (else a success).
pub open spec fn step_after(attempt: usize, retriable: bool, outcome: Exchange) -> (Option<(Seq<char>, Seq<char>)>, bool, bool) {
    match outcome {
        Exchange::SendFailed(e) => if retries(attempt, retriable) {
            (None, false, true)
        } else {
            (Some(("desktopUnavailable"@, redacted(e@))), false, true)
        },
        Exchange::BadJson(e) => if retries(attempt, retriable) {
            (None, false, true)
        } else {
            (Some(("desktopUnavailable"@, "invalid JSON from Capto: "@ + redacted(e@))), false, true)
        },
        Exchange::Replied { status, status_text, ok, error } => if ok {
            (None, true, false)
        } else {
            match error {
                Some(err) => (Some((err.code@, redacted(err.message@))), false, false),
                None => (
                    Some((fallback_code(status), redacted("HTTP "@ + status_text@))),
                    false,
                    false,
                ),
            }
        },
    }
}

/// After attempt `attempt` (from 0) of a call at `now`: record the outcome
/// in the breaker (a transport or decoding failure counts against it, any
/// envelope for it) and decide the next step.
pub fn after_exchange(
    breaker: &mut CircuitBreaker,
    now: u64,
    attempt: usize,
    retriable: bool,
    outcome: Exchange,
) -> (r: RequestStep)
    requires
        old(breaker).failures() < u32::MAX,
    ensures
        ({
            let (fail, succeed, failed) = step_after(attempt, retriable, outcome);
            &&& fail_view(r) == fail
            &&& (r is Succeed) == succeed
            &&& (r is Retry) == (fail is None && !succeed)
            &&& final(breaker).config() == old(breaker).config()
            &&& if failed {
                &&& final(breaker).failures() == old(breaker).failures() + 1
                &&& final(breaker).last_failure() == Some(now)
                &&& final(breaker).spec_is_open() == (old(breaker).spec_is_open() || old(
                    breaker,
                ).failures() + 1 >= old(breaker).config().max_failures)
            } else {
                &&& final(breaker).failures() == 0
                &&& final(breaker).last_failure() is None
                &&& !final(breaker).spec_is_open()
            }
        }),
{
    let may_retry = retriable && attempt < MAX_RETRIES as usize;
    match outcome {
        Exchange::SendFailed(e) => {
            breaker.on_failure(now);
            if may_retry {
                RequestStep::Retry
            } else {
                RequestStep::Fail(
                    HttpError { code: crate::text::owned("desktopUnavailable"), message: redact(e.as_str()) },
                )
            }
        },
        Exchange::BadJson(e) => {
            breaker.on_failure(now);
            if may_retry {
                RequestStep::Retry
            } else {
                let mut m = chars_of("invalid JSON from Capto: ");
                let scrubbed = redact(e.as_str());
                extend_str(&mut m, scrubbed.as_str());
                RequestStep::Fail(
                    HttpError {
                        code: crate::text::owned("desktopUnavailable"),
                        message: string_from(m.as_slice()),
                    },
                )
            }
        },
        Exchange::Replied { status, status_text, ok, error } => {
            breaker.on_success();
            if ok {
                RequestStep::Succeed
            } else {
                match error {
                    Some(err) => RequestStep::Fail(
                        HttpError { code: err.code, message: redact(err.message.as_str()) },
                    ),
                    None => {
                        let mut m = chars_of("HTTP ");
                        extend_str(&mut m, status_text.as_str());
                        let text = string_from(m.as_slice());
                        let code = if status == 409 {
                            crate::text::owned("stateConflict")
                        } else {
                            crate::text::owned("error")
                        };
                        RequestStep::Fail(HttpError { code, message: redact(text.as_str()) })
                    },
                }
            }
        },
    }
}

/// A call makes at most `MAX_RETRIES + 1` attempts: whatever attempt
/// number `MAX_RETRIES` (or a later one) gave, the step after it is not a
/// retry.
pub proof fn lemma_no_retry_after_last_attempt(attempt: usize, retriable: bool, outcome: Exchange)
    requires
        attempt >= MAX_RETRIES,
    ensures
        ({
            let (fail, succeed, failed) = step_after(attempt, retriable, outcome);
            fail is Some || succeed
        }),
{
}

/// What follows the step `step` of attempt `attempt` (from 0): after a
/// retry of an attempt before the last, the next attempt's number and the
/// backoff to wait before it (250 ms after the first attempt, doubling after
/// each further one); otherwise the call is over.
pub fn next_attempt(attempt: usize, step: &RequestStep) -> (r: Option<(usize, u64)>)
    ensures
        r == (if *step is Retry && attempt < MAX_RETRIES {
            Some(((attempt + 1) as usize, backoff_ms(attempt as nat) as u64))
        } else {
            None
        }),
{
    match step {
        RequestStep::Retry => {
            if attempt < MAX_RETRIES as usize {
                let mut wait: u64 = 250;
                let mut i: usize = 0;
                while i < attempt
                    invariant
                        i <= attempt,
                        attempt < MAX_RETRIES,
                        wait == backoff_ms(i as nat),
                    decreases attempt - i,
                {
                    wait = wait * 2;
                    i = i + 1;
                }
                Some((attempt + 1, wait))
            } else {
                None
            }
        },
        _ => None,
    }
}

/// The control plane's address for a lock file's port.
pub open spec fn base_url(port: u16) -> Seq<char> {
    "http://127.0.0.1:"@ + decimal(port as nat)
}

pub fn base_url_for(port: u16) -> (r: String)
    ensures
        r@ == base_url(port),
{
    let mut out = chars_of("http://127.0.0.1:");
    push_decimal(&mut out, port as u64);
    string_from(out.as_slice())
}

/// The `Authorization` header value that carries `token`.
pub fn bearer_header(token: &str) -> (r: String)
    ensures
        r@ == "Bearer "@ + token@,
{
    let mut out = chars_of("Bearer ");
    extend_str(&mut out, token);
    string_from(out.as_slice())
}

/// The header the client sends with the token of the lock file is the one
/// the control plane accepts for that token.
pub proof fn lemma_client_header_authorized(token: Seq<char>)
    ensures
        crate::control::authorized(Some("Bearer "@ + token), token),
{
    let h = "Bearer "@ + token;
    assert(h.take("Bearer "@.len() as int) =~= "Bearer "@);
    assert(h.skip("Bearer "@.len() as int) =~= token);
}

/// What the CLI does while it waits for a desktop app it has just started.
#[derive(Debug)]
pub enum WaitStep {
    /// The control plane answered: use it.
    Ready,
    /// Poll again after this many milliseconds.
    Sleep(u64),
    /// Give up with this message.
    TimedOut(String),
}

/// The message of a wait for the control plane that ran out of time.
pub open spec fn wait_timeout_message(launched: Seq<char>) -> Seq<char> {
    "timed out waiting for Capto control plane after opening "@ + launched
        + ". Run `capto open`, or ask the user to start Capto from the Start menu, then retry"@
}

/// One poll of the wait for the control plane after launching `launched`:
/// ready once it answers, else timed out once more than `timeout_ms` have
/// passed, else poll again in 250 ms.
pub fn wait_step(answered: bool, elapsed_ms: u64, timeout_ms: u64, launched: &str) -> (r: WaitStep)
    ensures
        answered ==> r is Ready,
        !answered && elapsed_ms > timeout_ms ==> (r matches WaitStep::TimedOut(m) && m@
            == wait_timeout_message(launched@)),
        !answered && elapsed_ms <= timeout_ms ==> (r matches WaitStep::Sleep(ms) && ms == 250),
{
    if answered {
        WaitStep::Ready
    } else if elapsed_ms > timeout_ms {
        let mut out = chars_of("timed out waiting for Capto control plane after opening ");
        extend_str(&mut out, launched);
        extend_str(
            &mut out,
            ". Run `capto open`, or ask the user to start Capto from the Start menu, then retry",
        );
        WaitStep::TimedOut(string_from(out.as_slice()))
    } else {
        WaitStep::Sleep(250)
    }
}

} // verus!
