//! Resilience for the CLI -> desktop control-plane channel.
//!
//! `CircuitBreaker` opens after repeated consecutive failures, fails fast
//! while open, and half-opens to probe the transport again once a cooldown
//! has elapsed since the last failure. Time is a monotonic clock reading in
//! milliseconds supplied by the caller.

use vstd::prelude::*;

verus! {

/// Breaker tuning.
pub struct BreakerConfig {
    /// Consecutive failures before the breaker opens.
    pub max_failures: u32,
    /// How long (ms) the breaker stays open before allowing a probe.
    pub cooldown_ms: u64,
}

impl Clone for BreakerConfig {
    fn clone(&self) -> (r: Self)
        ensures
            r == *self,
    {
        BreakerConfig { max_failures: self.max_failures, cooldown_ms: self.cooldown_ms }
    }
}

impl Copy for BreakerConfig {}

impl Default for BreakerConfig {
    fn default() -> (r: Self)
        ensures
            r.max_failures == 3,
            r.cooldown_ms == 5000,
    {
        BreakerConfig { max_failures: 3, cooldown_ms: 5000 }
    }
}

/// Milliseconds from `since` to `now`, zero when `now` is earlier.
pub open spec fn elapsed_ms(now: u64, since: u64) -> int {
    if now >= since { now - since } else { 0 }
}

pub struct CircuitBreaker {
    cfg: BreakerConfig,
    open: bool,
    consecutive_failures: u32,
    last_failure: Option<u64>,
}

impl CircuitBreaker {
    /// The configuration the breaker was made with.
    pub closed spec fn config(&self) -> BreakerConfig {
        self.cfg
    }

    /// Whether the breaker is open.
    pub closed spec fn spec_is_open(&self) -> bool {
        self.open
    }

    /// Failures since the last success.
    pub closed spec fn failures(&self) -> nat {
        self.consecutive_failures as nat
    }

    /// Clock reading of the most recent failure, if any since the last success.
    pub closed spec fn last_failure(&self) -> Option<u64> {
        self.last_failure
    }

    /// A breaker made with `cfg`: closed, with no failures.
    pub closed spec fn fresh(cfg: BreakerConfig) -> Self {
        CircuitBreaker { cfg, open: false, consecutive_failures: 0, last_failure: None }
    }

    /// This breaker after a failure recorded at `now`.
    pub closed spec fn after_failure(self, now: u64) -> Self {
        let f = (self.consecutive_failures + 1) as u32;
        CircuitBreaker {
            cfg: self.cfg,
            open: self.open || f >= self.cfg.max_failures,
            consecutive_failures: f,
            last_failure: Some(now),
        }
    }

    /// This breaker after a success.
    pub closed spec fn after_success(self) -> Self {
        CircuitBreaker { cfg: self.cfg, open: false, consecutive_failures: 0, last_failure: None }
    }

    /// Whether a call may be attempted at `now` (the spec of `allow`).
    pub open spec fn permits(&self, now: u64) -> bool {
        !self.spec_is_open() || match self.last_failure() {
            None => true,
            Some(since) => elapsed_ms(now, since) >= self.config().cooldown_ms,
        }
    }

    pub fn new(cfg: BreakerConfig) -> (r: Self)
        ensures
            r == Self::fresh(cfg),
            r.config() == cfg,
            !r.spec_is_open(),
            r.failures() == 0,
            r.last_failure() is None,
    {
        CircuitBreaker { cfg, open: false, consecutive_failures: 0, last_failure: None }
    }

    /// Whether a call may be attempted at `now`. While closed this is always
    /// true; while open it becomes true again once the cooldown has elapsed
    /// ("half-open": the next call is a probe).
    pub fn allow(&self, now: u64) -> (r: bool)
        ensures
            r == self.permits(now),
    {
        if !self.open {
            true
        } else {
            match self.last_failure {
                None => true,
                Some(since) => {
                    let elapsed: u64 = if now >= since { now - since } else { 0 };
                    elapsed >= self.cfg.cooldown_ms
                },
            }
        }
    }

    /// Record a successful call; resets the breaker to closed.
    pub fn on_success(&mut self)
        ensures
            *final(self) == old(self).after_success(),
            final(self).config() == old(self).config(),
            !final(self).spec_is_open(),
            final(self).failures() == 0,
            final(self).last_failure() is None,
    {
        self.consecutive_failures = 0;
        self.last_failure = None;
        self.open = false;
    }

    /// Record a failed call at `now`. The breaker opens once the failure
    /// budget is exhausted; once open it stays open (a half-open probe that
    /// fails simply resets the cooldown timer).
    pub fn on_failure(&mut self, now: u64)
        requires
            old(self).failures() < u32::MAX,
        ensures
            *final(self) == old(self).after_failure(now),
            final(self).config() == old(self).config(),
            final(self).failures() == old(self).failures() + 1,
            final(self).last_failure() == Some(now),
            final(self).spec_is_open() == (old(self).spec_is_open() || old(self).failures() + 1
                >= old(self).config().max_failures),
    {
        self.consecutive_failures = self.consecutive_failures + 1;
        self.last_failure = Some(now);
        if !self.open && self.consecutive_failures >= self.cfg.max_failures {
            self.open = true;
        }
    }

    /// How many failures were recorded since the last success.
    pub fn failure_count(&self) -> (r: u32)
        ensures
            r == self.failures(),
    {
        self.consecutive_failures
    }

    /// Whether the breaker is currently open.
    pub fn is_open(&self) -> (r: bool)
        ensures
            r == self.spec_is_open(),
    {
        self.open
    }
}


/// The breaker after failures recorded at each of `times`, in order.
pub open spec fn failed_at_all(b: CircuitBreaker, times: Seq<u64>) -> CircuitBreaker
    decreases times.len(),
{
    if times.len() == 0 {
        b
    } else {
        failed_at_all(b, times.drop_last()).after_failure(times.last())
    }
}

proof fn lemma_failures_counted(b: CircuitBreaker, times: Seq<u64>)
    requires
        b.failures() + times.len() <= u32::MAX,
    ensures
        failed_at_all(b, times).failures() == b.failures() + times.len(),
        failed_at_all(b, times).config() == b.config(),
        failed_at_all(b, times).spec_is_open() == (b.spec_is_open() || (times.len() > 0
            && b.failures() + times.len() >= b.config().max_failures)),
        times.len() > 0 ==> failed_at_all(b, times).last_failure() == Some(times.last()),
    decreases times.len(),
{
    if times.len() > 0 {
        lemma_failures_counted(b, times.drop_last());
    }
}

/// A breaker starts closed and opens exactly when `max_failures` failures
/// in a row have been recorded; while open it refuses every call until the
/// cooldown has passed since the last failure.
pub proof fn lemma_opens_after_max_failures(cfg: BreakerConfig, times: Seq<u64>, now: u64)
    requires
        times.len() < u32::MAX,
    ensures
        !CircuitBreaker::fresh(cfg).spec_is_open(),
        failed_at_all(CircuitBreaker::fresh(cfg), times).spec_is_open() == (times.len() > 0
            && times.len() >= cfg.max_failures),
        failed_at_all(CircuitBreaker::fresh(cfg), times).spec_is_open() && elapsed_ms(
            now,
            times.last(),
        ) < cfg.cooldown_ms ==> !failed_at_all(CircuitBreaker::fresh(cfg), times).permits(now),
{
    lemma_failures_counted(CircuitBreaker::fresh(cfg), times);
}

/// A call made on a breaker: a failure at a clock reading, a success, or a
/// question whether a call may go out at a clock reading.
pub enum BreakerEvent {
    Failure(u64),
    Success,
    Allow(u64),
}

/// The breaker after the events `evs`, in order (`allow` changes nothing).
pub open spec fn replayed(b: CircuitBreaker, evs: Seq<BreakerEvent>) -> CircuitBreaker
    decreases evs.len(),
{
    if evs.len() == 0 {
        b
    } else {
        let prev = replayed(b, evs.drop_last());
        match evs.last() {
            BreakerEvent::Failure(t) => prev.after_failure(t),
            BreakerEvent::Success => prev.after_success(),
            BreakerEvent::Allow(_) => prev,
        }
    }
}

/// How many failures `evs` records after its last success.
pub open spec fn failures_since_success(evs: Seq<BreakerEvent>) -> nat
    decreases evs.len(),
{
    if evs.len() == 0 {
        0
    } else {
        match evs.last() {
            BreakerEvent::Failure(_) => failures_since_success(evs.drop_last()) + 1,
            BreakerEvent::Success => 0,
            BreakerEvent::Allow(_) => failures_since_success(evs.drop_last()),
        }
    }
}

/// Whatever calls a breaker has seen since it was made, it is open exactly
/// when the failures since the last success (or since it was made) have
/// reached the budget: further failures keep it open and only a success
/// closes it.
pub proof fn lemma_open_iff_budget_spent(cfg: BreakerConfig, evs: Seq<BreakerEvent>)
    requires
        cfg.max_failures >= 1,
        forall|i: int|
            0 <= i <= evs.len() ==> failures_since_success(#[trigger] evs.take(i)) <= u32::MAX,
    ensures
        replayed(CircuitBreaker::fresh(cfg), evs).failures() == failures_since_success(evs),
        replayed(CircuitBreaker::fresh(cfg), evs).config() == cfg,
        replayed(CircuitBreaker::fresh(cfg), evs).spec_is_open() == (failures_since_success(evs)
            >= cfg.max_failures),
    decreases evs.len(),
{
    assert(evs.take(evs.len() as int) =~= evs);
    if evs.len() > 0 {
        let prev = evs.drop_last();
        assert forall|i: int| 0 <= i <= prev.len() implies failures_since_success(
            #[trigger] prev.take(i),
        ) <= u32::MAX by {
            assert(prev.take(i) =~= evs.take(i));
        }
        lemma_open_iff_budget_spent(cfg, prev);
    }
}

/// Once the cooldown has passed since the last failure an open breaker lets
/// one probe through; a failed probe keeps it open, restarting the
/// cooldown from the probe.
pub proof fn lemma_probe_after_cooldown(b: CircuitBreaker, t: u64, now: u64)
    requires
        b.spec_is_open(),
        b.last_failure() == Some(t),
        b.failures() < u32::MAX,
        elapsed_ms(now, t) >= b.config().cooldown_ms,
    ensures
        b.permits(now),
        b.after_failure(now).spec_is_open(),
        b.config().cooldown_ms > 0 ==> !b.after_failure(now).permits(now),
{
}

/// A success closes the breaker and forgets earlier failures: it allows
/// calls at any time, and fewer than `max_failures` failures after it do
/// not open it again.
pub proof fn lemma_success_resets(b: CircuitBreaker, now: u64, times: Seq<u64>)
    requires
        times.len() < b.config().max_failures,
    ensures
        b.after_success().permits(now),
        b.after_success().failures() == 0,
        !failed_at_all(b.after_success(), times).spec_is_open(),
{
    lemma_failures_counted(b.after_success(), times);
}

/// The `Duration` of `ms` milliseconds (`Duration::from_millis`).
pub uninterp spec fn duration_of_millis(ms: u64) -> std::time::Duration;

/// `Duration::from_millis(ms)`. Claimed: the result is the named duration
/// of `ms` milliseconds.
#[verifier::external_body]
fn millis(ms: u64) -> (d: std::time::Duration)
    ensures
        d == duration_of_millis(ms),
{
    std::time::Duration::from_millis(ms)
}

/// Milliseconds before retry `i`: 250, 500, 1000, ... doubling each time.
pub open spec fn backoff_ms(i: nat) -> nat
    decreases i,
{
    if i == 0 {
        250
    } else {
        2 * backoff_ms((i - 1) as nat)
    }
}

proof fn lemma_backoff_monotonic(i: nat, j: nat)
    requires
        i <= j,
    ensures
        backoff_ms(i) <= backoff_ms(j),
    decreases j,
{
    if i < j {
        lemma_backoff_monotonic(i, (j - 1) as nat);
    }
}

/// Exponential backoff schedule for retries: 250ms, 500ms, 1s, ...
/// (retries beyond the 57th would not fit a `u64` of milliseconds).
pub fn backoff_delays(max_retries: u32) -> (r: Vec<std::time::Duration>)
    requires
        max_retries <= 57,
    ensures
        r@.len() == max_retries,
        forall|i: int|
            0 <= i < max_retries ==> r@[i] == duration_of_millis(backoff_ms(i as nat) as u64),
{
    proof {
        reveal_with_fuel(backoff_ms, 57);
        assert(backoff_ms(56) == 18014398509481984000);
    }
    let mut out: Vec<std::time::Duration> = Vec::new();
    let mut delay: u64 = 250;
    let mut i: u32 = 0;
    while i < max_retries
        invariant
            i <= max_retries <= 57,
            i < max_retries ==> delay == backoff_ms(i as nat),
            backoff_ms(56) == 18014398509481984000,
            out@.len() == i,
            forall|k: int| 0 <= k < i ==> out@[k] == duration_of_millis(backoff_ms(k as nat) as u64),
        decreases max_retries - i,
    {
        proof {
            lemma_backoff_monotonic(i as nat, 56);
        }
        out.push(millis(delay));
        if i + 1 < max_retries {
            proof {
                lemma_backoff_monotonic((i + 1) as nat, 56);
            }
            delay = delay * 2;
        }
        i = i + 1;
    }
    out
}

} // verus!
