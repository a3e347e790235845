use capto::client::{
    after_exchange, base_url_for, bearer_header, gate, next_attempt, wait_step, Exchange, RequestStep, WaitStep,
    MAX_RETRIES,
};
use capto::control::check_auth;
use capto::envelope::ApiError;
use capto::resilience::{BreakerConfig, CircuitBreaker};

fn breaker() -> CircuitBreaker {
    CircuitBreaker::new(BreakerConfig { max_failures: 2, cooldown_ms: 1000 })
}

#[test]
fn reads_retry_transport_failures_then_give_up() {
    let mut b = breaker();
    assert!(gate(&b, 0).is_none());
    let step = after_exchange(&mut b, 0, 0, true, Exchange::SendFailed("connect refused".into()));
    assert!(matches!(step, RequestStep::Retry));
    let step = after_exchange(&mut b, 1, 1, true, Exchange::BadJson("eof".into()));
    assert!(matches!(step, RequestStep::Retry));
    assert!(b.is_open());
    let e = gate(&b, 2).expect("circuit open");
    assert_eq!(e.code, "desktopUnavailable");
    assert!(e.message.contains("circuit open"));
    let step = after_exchange(&mut b, 1500, MAX_RETRIES as usize, true, Exchange::SendFailed("Bearer abc failed".into()));
    match step {
        RequestStep::Fail(e) => {
            assert_eq!(e.code, "desktopUnavailable");
            assert_eq!(e.message, "Bearer *** failed");
        }
        _ => panic!("expected failure"),
    }
}

#[test]
fn writes_do_not_retry() {
    let mut b = breaker();
    let step = after_exchange(&mut b, 0, 0, false, Exchange::BadJson("?token=x".into()));
    match step {
        RequestStep::Fail(e) => assert_eq!(e.message, "invalid JSON from Capto: ?token=***"),
        _ => panic!("expected failure"),
    }
}

#[test]
fn envelopes_succeed_or_carry_their_error() {
    let mut b = breaker();
    let _ = after_exchange(&mut b, 0, 0, true, Exchange::SendFailed("x".into()));
    let ok = after_exchange(&mut b, 1, 1, true, Exchange::Replied { status: 200, status_text: "200 OK".into(), ok: true, error: None });
    assert!(matches!(ok, RequestStep::Succeed));
    assert!(!b.is_open());
    let err = after_exchange(&mut b, 2, 0, true, Exchange::Replied {
        status: 409,
        status_text: "409 Conflict".into(),
        ok: false,
        error: Some(ApiError::new("stateConflict", "already recording")),
    });
    match err {
        RequestStep::Fail(e) => {
            assert_eq!(e.code, "stateConflict");
            assert_eq!(e.message, "already recording");
        }
        _ => panic!("expected failure"),
    }
    let bare = after_exchange(&mut b, 3, 0, true, Exchange::Replied { status: 409, status_text: "409 Conflict".into(), ok: false, error: None });
    match bare {
        RequestStep::Fail(e) => {
            assert_eq!(e.code, "stateConflict");
            assert_eq!(e.message, "HTTP 409 Conflict");
        }
        _ => panic!("expected failure"),
    }
    let other = after_exchange(&mut b, 3, 0, true, Exchange::Replied { status: 500, status_text: "500 Internal Server Error".into(), ok: false, error: None });
    assert!(matches!(other, RequestStep::Fail(e) if e.code == "error"));
}

#[test]
fn client_header_is_accepted_by_the_server() {
    assert_eq!(base_url_for(8080), "http://127.0.0.1:8080");
    let token = "0f9e-token";
    assert!(check_auth(Some(&bearer_header(token)), token));
}

#[test]
fn waiting_for_the_control_plane_polls_until_timeout() {
    assert!(matches!(wait_step(true, 99_999, 10, "C:/Capto.exe"), WaitStep::Ready));
    assert!(matches!(wait_step(false, 10_000, 10_000, "C:/Capto.exe"), WaitStep::Sleep(250)));
    match wait_step(false, 10_001, 10_000, "C:/Capto.exe") {
        WaitStep::TimedOut(m) => assert_eq!(
            m,
            "timed out waiting for Capto control plane after opening C:/Capto.exe. Run `capto open`, or ask the user to start Capto from the Start menu, then retry"
        ),
        other => panic!("unexpected {:?}", other),
    }
}

#[test]
fn retries_follow_the_backoff_and_stop_after_the_last_attempt() {
    assert_eq!(next_attempt(0, &RequestStep::Retry), Some((1, 250)));
    assert_eq!(next_attempt(1, &RequestStep::Retry), Some((2, 500)));
    assert_eq!(next_attempt(MAX_RETRIES as usize, &RequestStep::Retry), None);
    assert_eq!(next_attempt(0, &RequestStep::Succeed), None);
}

#[test]
fn a_read_that_keeps_failing_is_attempted_three_times() {
    let mut b = CircuitBreaker::new(BreakerConfig { max_failures: 10, cooldown_ms: 1000 });
    let mut attempt = 0usize;
    let mut attempts = 0;
    let mut waited = Vec::new();
    loop {
        assert!(gate(&b, 0).is_none());
        attempts += 1;
        let step = after_exchange(&mut b, 0, attempt, true, Exchange::SendFailed("refused".into()));
        match next_attempt(attempt, &step) {
            Some((next, wait_ms)) => {
                waited.push(wait_ms);
                attempt = next;
            }
            None => {
                assert!(matches!(step, RequestStep::Fail(_)));
                break;
            }
        }
    }
    assert_eq!(attempts, MAX_RETRIES + 1);
    assert_eq!(waited, vec![250, 500]);
}
