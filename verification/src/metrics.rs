//! Local-only metrics registry for the control plane.
//!
//! Nothing here leaves the machine: the control-plane HTTP layer records
//! per-endpoint counters and request durations, and the same snapshot is
//! served back over the localhost metrics endpoint for debugging.

use vstd::prelude::*;
use crate::clock::{clock_now, millis_since};
use crate::table::{entries_map, lemma_entries_map_at, lemma_sorted_entries_determined, sorted_by_name, NameTable};

verus! {

#[derive(Debug)]
pub struct CounterPoint {
    pub name: String,
    pub count: u64,
}

#[derive(Debug)]
pub struct DurationPoint {
    pub name: String,
    pub count: u64,
    pub total_ms: u64,
    pub avg_ms: u64,
    pub max_ms: u64,
}

/// Point-in-time snapshot of every series, each list in name order.
#[derive(Debug)]
pub struct MetricsSnapshot {
    /// Process uptime at snapshot time, in milliseconds.
    pub uptime_ms: u64,
    pub counters: Vec<CounterPoint>,
    pub durations: Vec<DurationPoint>,
}

impl Default for MetricsSnapshot {
    fn default() -> (r: Self)
        ensures
            r.uptime_ms == 0,
            r.counters@.len() == 0,
            r.durations@.len() == 0,
    {
        MetricsSnapshot { uptime_ms: 0, counters: Vec::new(), durations: Vec::new() }
    }
}

/// Aggregate of one duration series: (count, total ms, max ms).
pub type DurationAgg = (u64, u64, u64);

/// Metrics collector: named counters and named duration series.
pub struct Metrics {
    started: std::time::Instant,
    counters: NameTable<u64>,
    durations: NameTable<DurationAgg>,
}

/// The value of counter `name` in `m`, zero when never touched.
pub open spec fn count_of(m: Map<Seq<char>, u64>, name: Seq<char>) -> int {
    if m.contains_key(name) { m[name] as int } else { 0 }
}

/// The aggregate of series `name` after one more sample of `ms`.
pub open spec fn observed(m: Map<Seq<char>, DurationAgg>, name: Seq<char>, ms: u64) -> DurationAgg {
    if m.contains_key(name) {
        let a = m[name];
        ((a.0 + 1) as u64, (a.1 + ms) as u64, if a.2 >= ms { a.2 } else { ms })
    } else {
        (1, ms, ms)
    }
}

/// A duration series seen at least once, whose largest sample is no larger
/// than its total.
pub open spec fn agg_ok(a: DurationAgg) -> bool {
    a.0 >= 1 && a.2 <= a.1
}

/// The (name, count) view of a counter listing.
pub open spec fn counter_view(c: Seq<CounterPoint>) -> Seq<(Seq<char>, u64)> {
    c.map_values(|p: CounterPoint| (p.name@, p.count))
}

/// The (name, (count, total, max)) view of a duration listing.
pub open spec fn duration_view(d: Seq<DurationPoint>) -> Seq<(Seq<char>, DurationAgg)> {
    d.map_values(|p: DurationPoint| (p.name@, (p.count, p.total_ms, p.max_ms)))
}

/// `s` lists the counters `counters` and the duration series `durations`:
/// each list sorted by name with every series exactly once, every series
/// observed at least once with its largest sample no larger than its total,
/// and each average the total divided by the count.
pub open spec fn lists_series(
    s: MetricsSnapshot,
    counters: Map<Seq<char>, u64>,
    durations: Map<Seq<char>, DurationAgg>,
) -> bool {
    &&& sorted_by_name(counter_view(s.counters@))
    &&& entries_map(counter_view(s.counters@)) == counters
    &&& sorted_by_name(duration_view(s.durations@))
    &&& entries_map(duration_view(s.durations@)) == durations
    &&& forall|i: int|
        0 <= i < s.durations@.len() ==> (#[trigger] s.durations@[i]).count >= 1
            && s.durations@[i].max_ms <= s.durations@[i].total_ms
    &&& forall|i: int|
        0 <= i < s.durations@.len() ==> (#[trigger] s.durations@[i]).avg_ms == s.durations@[i].total_ms
            / (if s.durations@[i].count >= 1 { s.durations@[i].count } else { 1 })
}

/// Two snapshots of the same counters and duration series (no write in
/// between: `snapshot` disturbs nothing) are identical: the same counters
/// with the same counts, and the same series with the same count, total,
/// average and maximum, in the same order.
pub proof fn lemma_snapshots_agree(
    counters: Map<Seq<char>, u64>,
    durations: Map<Seq<char>, DurationAgg>,
    s1: MetricsSnapshot,
    s2: MetricsSnapshot,
)
    requires
        lists_series(s1, counters, durations),
        lists_series(s2, counters, durations),
    ensures
        counter_view(s1.counters@) == counter_view(s2.counters@),
        duration_view(s1.durations@) == duration_view(s2.durations@),
        s1.durations@.len() == s2.durations@.len(),
        forall|i: int| 0 <= i < s1.durations@.len() ==> (#[trigger] s1.durations@[i]).avg_ms == s2.durations@[i].avg_ms,
{
    lemma_sorted_entries_determined(counter_view(s1.counters@), counter_view(s2.counters@));
    lemma_sorted_entries_determined(duration_view(s1.durations@), duration_view(s2.durations@));
    assert forall|i: int| 0 <= i < s1.durations@.len() implies (#[trigger] s1.durations@[i]).avg_ms
        == s2.durations@[i].avg_ms by {
        assert(duration_view(s1.durations@)[i] == duration_view(s2.durations@)[i]);
    }
}

impl Metrics {
    pub closed spec fn counters(&self) -> Map<Seq<char>, u64> {
        self.counters.map()
    }

    pub closed spec fn durations(&self) -> Map<Seq<char>, DurationAgg> {
        self.durations.map()
    }

    /// Both tables are sorted, and every duration series has been observed
    /// at least once with its largest sample no larger than its total.
    pub closed spec fn wf(&self) -> bool {
        &&& self.counters.wf()
        &&& self.durations.wf()
        &&& forall|n: Seq<char>| #[trigger] self.durations.map().contains_key(n) ==> agg_ok(
            self.durations.map()[n],
        )
    }

    pub fn new() -> (r: Self)
        ensures
            r.wf(),
            r.counters() == Map::<Seq<char>, u64>::empty(),
            r.durations() == Map::<Seq<char>, DurationAgg>::empty(),
    {
        let r = Metrics { started: clock_now(), counters: NameTable::new(), durations: NameTable::new() };
        assert(r.counters.map() =~= Map::<Seq<char>, u64>::empty());
        assert(r.durations.map() =~= Map::<Seq<char>, DurationAgg>::empty());
        r
    }

    /// Increment a named counter by one.
    pub fn incr(&mut self, name: &str)
        requires
            old(self).wf(),
            count_of(old(self).counters(), name@) + 1 <= u64::MAX,
        ensures
            final(self).wf(),
            final(self).counters() == old(self).counters().insert(
                name@,
                (count_of(old(self).counters(), name@) + 1) as u64,
            ),
            final(self).durations() == old(self).durations(),
    {
        self.add(name, 1);
    }

    /// The value of a named counter, zero when never touched.
    pub fn count(&self, name: &str) -> (r: u64)
        requires
            self.wf(),
        ensures
            r == count_of(self.counters(), name@),
    {
        match self.counters.get(name) {
            Some(c) => c,
            None => 0,
        }
    }

    /// The (count, total, max) of a named duration series, if it has one.
    pub fn duration(&self, name: &str) -> (r: Option<DurationAgg>)
        requires
            self.wf(),
        ensures
            match r {
                Some(a) => self.durations().contains_key(name@) && self.durations()[name@] == a,
                None => !self.durations().contains_key(name@),
            },
    {
        self.durations.get(name)
    }

    /// Add `n` to a named counter.
    pub fn add(&mut self, name: &str, n: u64)
        requires
            old(self).wf(),
            count_of(old(self).counters(), name@) + n <= u64::MAX,
        ensures
            final(self).wf(),
            final(self).counters() == old(self).counters().insert(
                name@,
                (count_of(old(self).counters(), name@) + n) as u64,
            ),
            final(self).durations() == old(self).durations(),
    {
        let current = match self.counters.get(name) {
            Some(c) => c,
            None => 0,
        };
        self.counters.set(name, current + n);
    }

    /// Observe one sample (e.g. a request duration) for a named series.
    pub fn observe_ms(&mut self, name: &str, ms: u64)
        requires
            old(self).wf(),
            old(self).durations().contains_key(name@) ==> old(self).durations()[name@].0 + 1
                <= u64::MAX && old(self).durations()[name@].1 + ms <= u64::MAX,
        ensures
            final(self).wf(),
            final(self).durations() == old(self).durations().insert(
                name@,
                observed(old(self).durations(), name@, ms),
            ),
            final(self).counters() == old(self).counters(),
    {
        let agg = match self.durations.get(name) {
            Some(a) => (a.0 + 1, a.1 + ms, if a.2 >= ms { a.2 } else { ms }),
            None => (1, ms, ms),
        };
        self.durations.set(name, agg);
    }

    /// Snapshot the current counters and durations without disturbing them;
    /// each list is sorted by name and lists every series exactly once.
    pub fn snapshot(&self) -> (r: MetricsSnapshot)
        requires
            self.wf(),
        ensures
            lists_series(r, self.counters(), self.durations()),
    {
        let mut counters: Vec<CounterPoint> = Vec::new();
        let mut i: usize = 0;
        while i < self.counters.len()
            invariant
                i <= self.counters.entries().len(),
                counter_view(counters@) == self.counters.entries().take(i as int),
            decreases self.counters.entries().len() - i,
        {
            let (name, count) = self.counters.entry(i);
            let ghost before = counter_view(counters@);
            counters.push(CounterPoint { name, count });
            proof {
                assert(counter_view(counters@) =~= before.push(self.counters.entries()[i as int]));
                assert(self.counters.entries().take(i as int).push(self.counters.entries()[i as int])
                    =~= self.counters.entries().take(i + 1));
            }
            i = i + 1;
        }
        let mut durations: Vec<DurationPoint> = Vec::new();
        let mut j: usize = 0;
        while j < self.durations.len()
            invariant
                j <= self.durations.entries().len(),
                duration_view(durations@) == self.durations.entries().take(j as int),
                self.wf(),
                forall|k: int|
                    0 <= k < durations@.len() ==> (#[trigger] durations@[k]).count >= 1
                        && durations@[k].max_ms <= durations@[k].total_ms,
                forall|k: int|
                    0 <= k < durations@.len() ==> (#[trigger] durations@[k]).avg_ms == durations@[k].total_ms
                        / (if durations@[k].count >= 1 { durations@[k].count } else { 1 }),
            decreases self.durations.entries().len() - j,
        {
            let (name, agg) = self.durations.entry(j);
            proof {
                lemma_entries_map_at(self.durations.entries(), j as int);
                assert(self.durations.map().contains_key(self.durations.entries()[j as int].0));
            }
            let divisor = if agg.0 >= 1 { agg.0 } else { 1 };
            let ghost before = duration_view(durations@);
            durations.push(
                DurationPoint { name, count: agg.0, total_ms: agg.1, avg_ms: agg.1 / divisor, max_ms: agg.2 },
            );
            proof {
                assert(duration_view(durations@) =~= before.push(self.durations.entries()[j as int]));
                assert(self.durations.entries().take(j as int).push(self.durations.entries()[j as int])
                    =~= self.durations.entries().take(j + 1));
            }
            j = j + 1;
        }
        proof {
            assert(self.counters.entries().take(self.counters.entries().len() as int) == self.counters.entries());
            assert(self.durations.entries().take(self.durations.entries().len() as int) == self.durations.entries());
        }
        MetricsSnapshot { uptime_ms: millis_since(&self.started), counters, durations }
    }
}

} // verus!
