//! Request outcome telemetry: a bounded first-in first-out log buffer and
//! running counters.

use vstd::prelude::*;

verus! {

/// One recorded proxy transaction.
pub struct RequestLog {
    pub id: u64,
    pub timestamp: i64,
    pub account_id: Option<String>,
    pub model: Option<String>,
    pub status: u16,
    pub duration_ms: u64,
    pub request_bytes: u64,
    pub response_bytes: u64,
}

impl RequestLog {
    /// A field-by-field copy.
    pub fn duplicate(&self) -> (r: RequestLog)
        ensures
            r == *self,
    {
        let account_id = match &self.account_id {
            Some(s) => Some(s.clone()),
            None => None,
        };
        let model = match &self.model {
            Some(s) => Some(s.clone()),
            None => None,
        };
        RequestLog {
            id: self.id,
            timestamp: self.timestamp,
            account_id,
            model,
            status: self.status,
            duration_ms: self.duration_ms,
            request_bytes: self.request_bytes,
            response_bytes: self.response_bytes,
        }
    }
}

/// Running counters over the recorded transactions.
#[derive(Clone, Copy, Debug, PartialEq, Eq, Structural)]
pub struct ProxyStats {
    pub total_requests: u64,
    pub success_count: u64,
    pub error_count: u64,
}

/// A status in 200..=399 counts as a success.
pub open spec fn is_success_status(status: u16) -> bool {
    200 <= status && status < 400
}

pub open spec fn saturating_inc(x: u64) -> u64 {
    if x < u64::MAX { (x + 1) as u64 } else { x }
}

pub open spec fn zero_stats() -> ProxyStats {
    ProxyStats { total_requests: 0, success_count: 0, error_count: 0 }
}

/// The counters after one more transaction with `status`.
pub open spec fn stats_after(s: ProxyStats, status: u16) -> ProxyStats {
    ProxyStats {
        total_requests: saturating_inc(s.total_requests),
        success_count: if is_success_status(status) { saturating_inc(s.success_count) } else { s.success_count },
        error_count: if is_success_status(status) { s.error_count } else { saturating_inc(s.error_count) },
    }
}

/// The buffer after appending `e`, the oldest entries dropped beyond `cap`.
pub open spec fn buffer_after(logs: Seq<RequestLog>, e: RequestLog, cap: nat) -> Seq<RequestLog> {
    let s = logs.push(e);
    if s.len() > cap { s.subrange(s.len() - cap, s.len() as int) } else { s }
}

/// The buffer after appending each of `entries` in turn.
pub open spec fn buffer_after_all(logs: Seq<RequestLog>, entries: Seq<RequestLog>, cap: nat) -> Seq<RequestLog>
    decreases entries.len(),
{
    if entries.len() == 0 {
        logs
    } else {
        buffer_after(buffer_after_all(logs, entries.drop_last(), cap), entries.last(), cap)
    }
}

pub open spec fn min_nat(a: nat, b: nat) -> nat {
    if a <= b { a } else { b }
}

/// The last `min(limit, len)` entries of `logs`, newest first.
pub open spec fn newest_first(logs: Seq<RequestLog>, limit: nat) -> Seq<RequestLog> {
    Seq::new(min_nat(limit, logs.len()), |i: int| logs[logs.len() - 1 - i])
}

/// Bounded request log with counters. While disabled, `record` does nothing.
pub struct ProxyMonitor {
    capacity: usize,
    enabled: bool,
    logs: Vec<RequestLog>,
    stats: ProxyStats,
}

impl ProxyMonitor {
    pub closed spec fn entries(&self) -> Seq<RequestLog> {
        self.logs@
    }

    pub closed spec fn capacity_spec(&self) -> nat {
        self.capacity as nat
    }

    pub closed spec fn enabled_spec(&self) -> bool {
        self.enabled
    }

    pub closed spec fn stats_spec(&self) -> ProxyStats {
        self.stats
    }

    pub closed spec fn wf(&self) -> bool {
        self.logs@.len() <= self.capacity
    }

    /// An empty, enabled monitor holding at most `capacity` entries.
    pub fn new(capacity: usize) -> (r: ProxyMonitor)
        ensures
            r.wf(),
            r.entries() == Seq::<RequestLog>::empty(),
            r.capacity_spec() == capacity,
            r.enabled_spec(),
            r.stats_spec() == zero_stats(),
    {
        ProxyMonitor { capacity, enabled: true, logs: Vec::new(), stats: ProxyStats { total_requests: 0, success_count: 0, error_count: 0 } }
    }

    pub fn capacity(&self) -> (r: usize)
        ensures
            r == self.capacity_spec(),
    {
        self.capacity
    }

    pub fn is_enabled(&self) -> (r: bool)
        ensures
            r == self.enabled_spec(),
    {
        self.enabled
    }

    pub fn len(&self) -> (r: usize)
        requires
            self.wf(),
        ensures
            r == self.entries().len(),
            r <= self.capacity_spec(),
    {
        self.logs.len()
    }

    pub fn set_enabled(&mut self, enabled: bool)
        requires
            old(self).wf(),
        ensures
            final(self).wf(),
            final(self).enabled_spec() == enabled,
            final(self).entries() == old(self).entries(),
            final(self).capacity_spec() == old(self).capacity_spec(),
            final(self).stats_spec() == old(self).stats_spec(),
    {
        self.enabled = enabled;
    }

    /// Appends `entry` (dropping the oldest one when full) and counts it;
    /// does nothing while disabled.
    pub fn record(&mut self, entry: RequestLog)
        requires
            old(self).wf(),
        ensures
            final(self).wf(),
            final(self).entries().len() <= final(self).capacity_spec(),
            final(self).capacity_spec() == old(self).capacity_spec(),
            final(self).enabled_spec() == old(self).enabled_spec(),
            old(self).enabled_spec() ==> final(self).entries() == buffer_after(old(self).entries(), entry, old(self).capacity_spec()),
            old(self).enabled_spec() ==> final(self).stats_spec() == stats_after(old(self).stats_spec(), entry.status),
            !old(self).enabled_spec() ==> final(self).entries() == old(self).entries(),
            !old(self).enabled_spec() ==> final(self).stats_spec() == old(self).stats_spec(),
    {
        if !self.enabled {
            return;
        }
        let status = entry.status;
        let ghost before = self.logs@;
        if self.capacity == 0 {
            assert(before.push(entry).subrange(1, 1) =~= Seq::<RequestLog>::empty());
        } else {
            if self.logs.len() == self.capacity {
                self.logs.remove(0);
            }
            self.logs.push(entry);
            assert(self.logs@ =~= buffer_after(before, entry, self.capacity as nat));
        }
        let success = 200 <= status && status < 400;
        if self.stats.total_requests < u64::MAX {
            self.stats.total_requests = self.stats.total_requests + 1;
        }
        if success {
            if self.stats.success_count < u64::MAX {
                self.stats.success_count = self.stats.success_count + 1;
            }
        } else {
            if self.stats.error_count < u64::MAX {
                self.stats.error_count = self.stats.error_count + 1;
            }
        }
    }

    /// Up to `limit` entries, the most recent first.
    pub fn get_logs(&self, limit: usize) -> (r: Vec<RequestLog>)
        requires
            self.wf(),
        ensures
            r@ == newest_first(self.entries(), limit as nat),
            self.entries().len() <= self.capacity_spec(),
    {
        let n = self.logs.len();
        let count = if limit < n { limit } else { n };
        let mut out: Vec<RequestLog> = Vec::new();
        let mut i: usize = 0;
        while i < count
            invariant
                n == self.logs@.len(),
                count == min_nat(limit as nat, n as nat),
                i <= count,
                out@.len() == i,
                forall|j: int| 0 <= j < i ==> out@[j] == self.logs@[n - 1 - j],
            decreases count - i,
        {
            out.push(self.logs[n - 1 - i].duplicate());
            i = i + 1;
        }
        assert(out@ =~= newest_first(self.entries(), limit as nat));
        out
    }

    pub fn get_stats(&self) -> (r: ProxyStats)
        ensures
            r == self.stats_spec(),
    {
        self.stats
    }

    /// Empties the buffer and resets the counters.
    pub fn clear(&mut self)
        requires
            old(self).wf(),
        ensures
            final(self).wf(),
            final(self).entries() == Seq::<RequestLog>::empty(),
            final(self).stats_spec() == zero_stats(),
            final(self).capacity_spec() == old(self).capacity_spec(),
            final(self).enabled_spec() == old(self).enabled_spec(),
    {
        self.logs = Vec::new();
        self.stats = ProxyStats { total_requests: 0, success_count: 0, error_count: 0 };
    }
}

/// A well-formed monitor never holds more entries than its capacity.
pub proof fn lemma_within_capacity(m: &ProxyMonitor)
    requires
        m.wf(),
    ensures
        m.entries().len() <= m.capacity_spec(),
{
}

/// Recording any sequence of entries into an empty buffer of capacity `cap`
/// keeps exactly the last `min(cap, n)` of them, in order of recording.
pub proof fn lemma_buffer_keeps_latest(entries: Seq<RequestLog>, cap: nat)
    ensures
        buffer_after_all(Seq::empty(), entries, cap)
            =~= entries.subrange(entries.len() - min_nat(cap, entries.len()), entries.len() as int),
    decreases entries.len(),
{
    if entries.len() > 0 {
        lemma_buffer_keeps_latest(entries.drop_last(), cap);
    }
}

/// After recording more entries than the capacity, asking for `cap` entries
/// gives exactly the `cap` most recent ones, the newest first.
pub proof fn lemma_logs_are_most_recent(entries: Seq<RequestLog>, cap: nat)
    requires
        entries.len() > cap,
    ensures
        newest_first(buffer_after_all(Seq::empty(), entries, cap), cap).len() == cap,
        forall|i: int| 0 <= i < cap ==>
            #[trigger] newest_first(buffer_after_all(Seq::empty(), entries, cap), cap)[i]
                == entries[entries.len() - 1 - i],
{
    lemma_buffer_keeps_latest(entries, cap);
}

} // verus!
