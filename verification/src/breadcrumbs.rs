//! Local breadcrumb trail for contextual crash reports.
//!
//! Capto never uploads telemetry. Instead the desktop keeps a small
//! in-memory ring buffer of significant events (control-plane requests,
//! session transitions, lifecycle markers, hotkey actions) that would
//! otherwise be lost the moment the process panics; the crash report embeds
//! a snapshot of it. Callers record already-scrubbed descriptions only.

use vstd::prelude::*;
use crate::clock::{clock_now, millis_since, now_ms};
use std::collections::VecDeque;

verus! {

/// How many most-recent events the ring buffer keeps in memory.
pub const DEFAULT_CAPACITY: usize = 64;

/// One recorded event on the breadcrumb trail.
#[derive(Debug)]
pub struct Breadcrumb {
    /// Origin of the event: "lifecycle", "control-plane", "session", "hotkey".
    pub category: String,
    /// Human-readable, already-scrubbed description.
    pub message: String,
    /// Correlating request id when the event came from the control plane.
    pub request_id: Option<String>,
    /// Milliseconds since the bus was created (relative ordering).
    pub rel_ms: u64,
    /// Wall-clock milliseconds since the Unix epoch.
    pub at_ms: u64,
}

fn clone_opt_string(s: &Option<String>) -> (r: Option<String>)
    ensures
        r == *s,
{
    match s {
        Some(v) => Some(v.clone()),
        None => None,
    }
}

impl Clone for Breadcrumb {
    fn clone(&self) -> (r: Self)
        ensures
            r == *self,
    {
        Breadcrumb {
            category: self.category.clone(),
            message: self.message.clone(),
            request_id: clone_opt_string(&self.request_id),
            rel_ms: self.rel_ms,
            at_ms: self.at_ms,
        }
    }
}

/// Everything a crash report copies out of the live bus.
#[derive(Debug)]
pub struct CrashContext {
    pub uptime_ms: u64,
    pub breadcrumbs: Vec<Breadcrumb>,
    pub last_request_id: Option<String>,
}

impl Default for CrashContext {
    fn default() -> (r: Self)
        ensures
            r.uptime_ms == 0,
            r.breadcrumbs@.len() == 0,
            r.last_request_id is None,
    {
        CrashContext { uptime_ms: 0, breadcrumbs: Vec::new(), last_request_id: None }
    }
}

/// Fixed-capacity breadcrumb trail scoped to one process.
pub struct BreadcrumbBus {
    started: std::time::Instant,
    capacity: usize,
    events: VecDeque<Breadcrumb>,
    last_request_id: Option<String>,
}

/// The trail after `b` is recorded into `trail` with room for `capacity`
/// events: the oldest event makes way when the trail is full.
pub open spec fn trail_after(trail: Seq<Breadcrumb>, capacity: nat, b: Breadcrumb) -> Seq<Breadcrumb> {
    if trail.len() >= capacity {
        trail.drop_first().push(b)
    } else {
        trail.push(b)
    }
}

/// The events' relative times never go down along the trail.
pub open spec fn rel_ordered(t: Seq<Breadcrumb>) -> bool {
    forall|i: int, j: int| 0 <= i <= j < t.len() ==> #[trigger] t[i].rel_ms <= #[trigger] t[j].rel_ms
}

impl BreadcrumbBus {
    /// How many events the trail keeps.
    pub closed spec fn capacity(&self) -> nat {
        self.capacity as nat
    }

    /// The recorded events, oldest first.
    pub closed spec fn trail(&self) -> Seq<Breadcrumb> {
        self.events@
    }

    /// The most recent request id recorded.
    pub closed spec fn last_request(&self) -> Option<String> {
        self.last_request_id
    }

    /// The trail never holds more than `capacity >= 1` events, and their
    /// relative times never go down.
    pub open spec fn wf(&self) -> bool {
        &&& self.capacity() >= 1
        &&& self.trail().len() <= self.capacity()
        &&& rel_ordered(self.trail())
    }

    pub fn new() -> (r: Self)
        ensures
            r.wf(),
            r.capacity() == DEFAULT_CAPACITY,
            r.trail().len() == 0,
            r.last_request() is None,
    {
        Self::with_capacity(DEFAULT_CAPACITY)
    }

    /// A bus keeping the `capacity` most recent events (at least one).
    pub fn with_capacity(capacity: usize) -> (r: Self)
        ensures
            r.wf(),
            r.capacity() == if capacity >= 1 { capacity as nat } else { 1 },
            r.trail().len() == 0,
            r.last_request() is None,
    {
        BreadcrumbBus {
            started: clock_now(),
            capacity: if capacity >= 1 { capacity } else { 1 },
            events: VecDeque::new(),
            last_request_id: None,
        }
    }

    /// Milliseconds since this bus was created (process uptime proxy).
    pub fn uptime_ms(&self) -> u64 {
        millis_since(&self.started)
    }

    /// Record one event, dropping the oldest when the buffer is full.
    pub fn record(&mut self, category: &str, message: &str, request_id: Option<String>)
        requires
            old(self).wf(),
        ensures
            final(self).wf(),
            final(self).capacity() == old(self).capacity(),
            final(self).trail().len() > 0,
            final(self).trail() == trail_after(
                old(self).trail(),
                old(self).capacity(),
                final(self).trail().last(),
            ),
            final(self).trail().last().category@ == category@,
            final(self).trail().last().message@ == message@,
            final(self).trail().last().request_id == request_id,
            forall|i: int|
                0 <= i < old(self).trail().len() ==> #[trigger] old(self).trail()[i].rel_ms
                    <= final(self).trail().last().rel_ms,
            final(self).last_request() == match request_id {
                Some(id) => Some(id),
                None => old(self).last_request(),
            },
    {
        // The clock is monotonic, so the reading is never below the last
        // event's; taking the larger keeps the order by construction.
        let reading = self.uptime_ms();
        let n = self.events.len();
        let rel_ms = if n > 0 && self.events[n - 1].rel_ms > reading {
            self.events[n - 1].rel_ms
        } else {
            reading
        };
        let ghost before = self.events@;
        assert(forall|i: int| 0 <= i < before.len() ==> #[trigger] before[i].rel_ms <= rel_ms) by {
            assert forall|i: int| 0 <= i < before.len() implies #[trigger] before[i].rel_ms <= rel_ms by {
                assert(before[i].rel_ms <= before[before.len() - 1].rel_ms);
            }
        }
        let at_ms = now_ms();
        match &request_id {
            Some(id) => {
                self.last_request_id = Some(id.clone());
            },
            None => {},
        }
        if self.events.len() >= self.capacity {
            let _ = self.events.pop_front();
        }
        let crumb = Breadcrumb {
            category: category.to_owned(),
            message: message.to_owned(),
            request_id,
            rel_ms,
            at_ms,
        };
        self.events.push_back(crumb);
    }

    /// The most recent control-plane request id observed.
    pub fn last_request_id(&self) -> (r: Option<String>)
        ensures
            r == self.last_request(),
    {
        clone_opt_string(&self.last_request_id)
    }

    /// Snapshot for a crash report: the trail, oldest first, and the last
    /// request id. Never blocks (the bus is owned, so it is always `Some`).
    pub fn try_snapshot(&self) -> (r: Option<CrashContext>)
        ensures
            r matches Some(ctx) && ctx.breadcrumbs@ == self.trail() && ctx.last_request_id
                == self.last_request(),
    {
        let mut crumbs: Vec<Breadcrumb> = Vec::new();
        let mut i: usize = 0;
        while i < self.events.len()
            invariant
                i <= self.events@.len(),
                crumbs@ == self.events@.take(i as int),
            decreases self.events@.len() - i,
        {
            let c = self.events[i].clone();
            proof {
                assert(self.events@.take(i as int).push(self.events@[i as int]) == self.events@.take(
                    i + 1,
                ));
            }
            crumbs.push(c);
            i = i + 1;
        }
        proof {
            assert(self.events@.take(self.events@.len() as int) == self.events@);
        }
        Some(
            CrashContext {
                uptime_ms: self.uptime_ms(),
                breadcrumbs: crumbs,
                last_request_id: clone_opt_string(&self.last_request_id),
            },
        )
    }
}


/// The `capacity` most recent of `all` events, oldest first.
pub open spec fn recent(all: Seq<Breadcrumb>, capacity: nat) -> Seq<Breadcrumb> {
    if all.len() > capacity {
        all.skip(all.len() - capacity)
    } else {
        all
    }
}

/// The trail holds exactly the `capacity` most recent events in the order
/// they were recorded: if it did before a `record`, it still does after.
pub proof fn lemma_trail_keeps_most_recent(all: Seq<Breadcrumb>, capacity: nat, b: Breadcrumb)
    requires
        capacity >= 1,
    ensures
        trail_after(recent(all, capacity), capacity, b) == recent(all.push(b), capacity),
{
    let t = recent(all, capacity);
    let n = all.push(b);
    if all.len() >= capacity {
        assert(t.drop_first().push(b) =~= n.skip(n.len() - capacity));
    } else {
        assert(t.push(b) =~= recent(n, capacity));
    }
}

} // verus!
