//! Per-provider latency and success metrics: a bounded window of recent
//! samples for percentiles, and lifetime counters for the success rate.

use std::collections::VecDeque;
use vstd::prelude::*;

verus! {

/// Capacity of the sample window.
pub const MAX_SAMPLES: usize = 100;

/// One finished request: how long it took, in microseconds, and whether it
/// succeeded.
#[derive(Debug, Clone, Copy, PartialEq, Eq, Structural)]
pub struct LatencySample {
    pub duration_us: u64,
    pub success: bool,
}

/// Number of values of `s` below `v`.
pub open spec fn count_below(s: Seq<u64>, v: u64) -> nat
    decreases s.len(),
{
    if s.len() == 0 {
        0
    } else {
        count_below(s.drop_last(), v) + if s.last() < v {
            1nat
        } else {
            0nat
        }
    }
}

/// Number of values of `s` at most `v`.
pub open spec fn count_at_most(s: Seq<u64>, v: u64) -> nat
    decreases s.len(),
{
    if s.len() == 0 {
        0
    } else {
        count_at_most(s.drop_last(), v) + if s.last() <= v {
            1nat
        } else {
            0nat
        }
    }
}

/// The nearest rank of percentile `p` among `n` values: `ceil(p * n / 100)`,
/// kept within `1..=n`.
pub open spec fn nearest_rank(n: nat, p: nat) -> nat {
    let r = (p * n + 99) / 100;
    if r == 0 {
        1
    } else if r > n {
        n
    } else {
        r
    }
}

/// `v` is the `k`-th smallest value of `s` (counting from one).
pub open spec fn is_kth_smallest(s: Seq<u64>, k: nat, v: u64) -> bool {
    &&& s.contains(v)
    &&& count_below(s, v) < k
    &&& k <= count_at_most(s, v)
}

/// The durations of the successful samples of `w`, oldest first.
pub open spec fn successful_latencies(w: Seq<LatencySample>) -> Seq<u64>
    decreases w.len(),
{
    if w.len() == 0 {
        Seq::empty()
    } else if w.last().success {
        successful_latencies(w.drop_last()).push(w.last().duration_us)
    } else {
        successful_latencies(w.drop_last())
    }
}

/// The window after recording `x`: appended, the oldest dropped first when
/// the window is full.
pub open spec fn window_after(w: Seq<LatencySample>, x: LatencySample) -> Seq<LatencySample> {
    if w.len() >= MAX_SAMPLES {
        w.drop_first().push(x)
    } else {
        w.push(x)
    }
}

/// Nearest-rank percentile `p` of `values` (any order); zero when `values`
/// is empty.
pub open spec fn spec_percentile(values: Seq<u64>, p: nat, r: u64) -> bool {
    if values.len() == 0 {
        r == 0
    } else {
        is_kth_smallest(values, nearest_rank(values.len(), p), r)
    }
}

proof fn lemma_count_all(s: Seq<u64>, v: u64)
    requires
        forall|i: int| 0 <= i < s.len() ==> s[i] <= v,
    ensures
        count_at_most(s, v) == s.len(),
    decreases s.len(),
{
    if s.len() > 0 {
        lemma_count_all(s.drop_last(), v);
    }
}

/// Where some value is below `v`, the largest of them leaves nothing of `s`
/// strictly between it and `v`.
proof fn lemma_next_below(s: Seq<u64>, v: u64) -> (u: u64)
    requires
        count_below(s, v) > 0,
    ensures
        s.contains(u),
        u < v,
        forall|i: int| 0 <= i < s.len() ==> !(u < #[trigger] s[i] && s[i] < v),
    decreases s.len(),
{
    let t = s.drop_last();
    let x = s.last();
    if count_below(t, v) > 0 {
        let u0 = lemma_next_below(t, v);
        let j = choose|j: int| 0 <= j < t.len() && t[j] == u0;
        assert(s[j] == u0);
        if x < v && x > u0 {
            assert(s[s.len() - 1] == x);
            assert forall|i: int| 0 <= i < s.len() implies !(x < #[trigger] s[i] && s[i] < v) by {
                if i < s.len() - 1 {
                    assert(s[i] == t[i]);
                }
            }
            x
        } else {
            assert forall|i: int| 0 <= i < s.len() implies !(u0 < #[trigger] s[i] && s[i] < v) by {
                if i < s.len() - 1 {
                    assert(s[i] == t[i]);
                }
            }
            u0
        }
    } else {
        assert(x < v);
        assert(s[s.len() - 1] == x);
        assert forall|i: int| 0 <= i < s.len() implies !(x < #[trigger] s[i] && s[i] < v) by {
            if i < s.len() - 1 {
                assert(s[i] == t[i]);
                lemma_none_below(t, v, i);
            }
        }
        x
    }
}

proof fn lemma_none_below(s: Seq<u64>, v: u64, i: int)
    requires
        count_below(s, v) == 0,
        0 <= i < s.len(),
    ensures
        s[i] >= v,
    decreases s.len(),
{
    if i < s.len() - 1 {
        lemma_none_below(s.drop_last(), v, i);
    }
}

proof fn lemma_gap(s: Seq<u64>, u: u64, v: u64)
    requires
        u < v,
        forall|i: int| 0 <= i < s.len() ==> !(u < #[trigger] s[i] && s[i] < v),
    ensures
        count_at_most(s, u) == count_below(s, v),
    decreases s.len(),
{
    if s.len() > 0 {
        let t = s.drop_last();
        assert forall|i: int| 0 <= i < t.len() implies !(u < #[trigger] t[i] && t[i] < v) by {
            assert(t[i] == s[i]);
        }
        assert(s[s.len() - 1] == s.last());
        lemma_gap(t, u, v);
    }
}

proof fn lemma_below_bound(s: Seq<u64>, v: u64, j: int)
    requires
        0 <= j <= s.len(),
        forall|i: int| j <= i < s.len() ==> s[i] >= v,
    ensures
        count_below(s, v) <= j,
    decreases s.len(),
{
    if s.len() > j {
        lemma_below_bound(s.drop_last(), v, j);
    } else if s.len() > 0 {
        lemma_below_len(s, v);
    }
}

proof fn lemma_below_len(s: Seq<u64>, v: u64)
    ensures
        count_below(s, v) <= s.len(),
        count_at_most(s, v) <= s.len(),
    decreases s.len(),
{
    if s.len() > 0 {
        lemma_below_len(s.drop_last(), v);
    }
}

proof fn lemma_at_most_bound(s: Seq<u64>, v: u64, j: int)
    requires
        0 <= j <= s.len(),
        forall|i: int| 0 <= i < j ==> s[i] <= v,
    ensures
        count_at_most(s, v) >= j,
    decreases s.len(),
{
    if s.len() > j {
        lemma_at_most_bound(s.drop_last(), v, j);
    } else if j > 0 {
        lemma_at_most_bound(s.drop_last(), v, j - 1);
    }
}

proof fn lemma_counts_ordered(s: Seq<u64>, v1: u64, v2: u64)
    requires
        v1 < v2,
    ensures
        count_at_most(s, v1) <= count_below(s, v2),
    decreases s.len(),
{
    if s.len() > 0 {
        lemma_counts_ordered(s.drop_last(), v1, v2);
    }
}

/// The `k`-th smallest value is unique.
pub proof fn lemma_kth_unique(s: Seq<u64>, k: nat, v1: u64, v2: u64)
    requires
        is_kth_smallest(s, k, v1),
        is_kth_smallest(s, k, v2),
    ensures
        v1 == v2,
{
    if v1 < v2 {
        lemma_counts_ordered(s, v1, v2);
    } else if v2 < v1 {
        lemma_counts_ordered(s, v2, v1);
    }
}

/// On values sorted ascending, the nearest-rank percentile is the value at
/// index `ceil(p * n / 100) - 1`, whatever order the values were recorded in.
pub proof fn lemma_percentile_of_sorted(s: Seq<u64>, p: nat, r: u64)
    requires
        s.len() > 0,
        forall|i: int, j: int| 0 <= i <= j < s.len() ==> s[i] <= s[j],
        spec_percentile(s, p, r),
    ensures
        r == s[nearest_rank(s.len(), p) - 1],
{
    let k = nearest_rank(s.len(), p);
    let v = s[k - 1];
    lemma_below_bound(s, v, k - 1);
    lemma_at_most_bound(s, v, k as int);
    assert(s.contains(v));
    lemma_kth_unique(s, k, r, v);
}

fn count_at_most_in(values: &[u64], v: u64) -> (c: usize)
    ensures
        c == count_at_most(values@, v),
{
    let mut c: usize = 0;
    let mut i: usize = 0;
    while i < values.len()
        invariant
            i <= values@.len(),
            c == count_at_most(values@.take(i as int), v),
            c <= i,
        decreases values@.len() - i,
    {
        assert(values@.take(i as int + 1).drop_last() =~= values@.take(i as int));
        if values[i] <= v {
            c = c + 1;
        }
        i = i + 1;
    }
    assert(values@.take(i as int) =~= values@);
    c
}

/// Nearest-rank percentile `p` of `values`, which need not be sorted: the
/// `ceil(p * n / 100)`-th smallest value (at least the first, at most the
/// last); zero when there are no values.
pub fn percentile(values: &[u64], p: u64) -> (r: u64)
    ensures
        spec_percentile(values@, p as nat, r),
{
    let n = values.len();
    if n == 0 {
        return 0;
    }
    assert(p as u128 * n as u128 + 99 <= u128::MAX) by (nonlinear_arith)
        requires
            p <= u64::MAX,
            n <= u64::MAX,
    ;
    let raw: u128 = (p as u128 * n as u128 + 99) / 100;
    let k: usize = if raw == 0 {
        1
    } else if raw > n as u128 {
        n
    } else {
        raw as usize
    };
    assert(k == nearest_rank(n as nat, p as nat));
    let ghost s = values@;
    // Largest value first: it has all `n` values at or below it.
    let mut best = values[0];
    let mut i: usize = 1;
    while i < n
        invariant
            n == s.len(),
            s == values@,
            1 <= i <= n,
            s.contains(best),
            forall|j: int| 0 <= j < i ==> s[j] <= best,
        decreases n - i,
    {
        if values[i] > best {
            best = values[i];
        }
        i = i + 1;
    }
    proof {
        lemma_count_all(s, best);
    }
    // Then the smallest value with at least `k` values at or below it.
    let mut i: usize = 0;
    while i < n
        invariant
            n == s.len(),
            s == values@,
            i <= n,
            1 <= k <= n,
            s.contains(best),
            k <= count_at_most(s, best),
            forall|j: int| 0 <= j < i && k <= count_at_most(s, #[trigger] s[j]) ==> best <= s[j],
        decreases n - i,
    {
        let c = count_at_most_in(values, values[i]);
        if c >= k && values[i] < best {
            best = values[i];
        }
        i = i + 1;
    }
    proof {
        if count_below(s, best) >= k {
            let u = lemma_next_below(s, best);
            lemma_gap(s, u, best);
            let j = choose|j: int| 0 <= j < s.len() && s[j] == u;
            assert(k <= count_at_most(s, s[j]));
        }
    }
    best
}

/// A snapshot of one provider's metrics.
#[derive(Debug)]
pub struct ProviderMetrics {
    pub provider_name: String,
    /// Median latency of the successful samples in the window, in
    /// microseconds; zero when there are none.
    pub latency_p50_us: u64,
    /// 99th-percentile latency of the successful samples in the window, in
    /// microseconds; zero when there are none.
    pub latency_p99_us: u64,
    /// Requests recorded over the collector's lifetime.
    pub total_requests: u64,
    /// Failed requests recorded over the collector's lifetime.
    pub failed_requests: u64,
}

impl ProviderMetrics {
    /// Metrics of a provider with no recorded request.
    pub fn empty(provider_name: &str) -> (r: ProviderMetrics)
        ensures
            r.provider_name@ == provider_name@,
            r.latency_p50_us == 0,
            r.latency_p99_us == 0,
            r.total_requests == 0,
            r.failed_requests == 0,
    {
        ProviderMetrics {
            provider_name: provider_name.to_owned(),
            latency_p50_us: 0,
            latency_p99_us: 0,
            total_requests: 0,
            failed_requests: 0,
        }
    }

    /// The lifetime success rate as a fraction `(numerator, denominator)`:
    /// `(total - failed, total)`, or `(1, 1)` before any request.
    pub fn success_rate(&self) -> (r: (u64, u64))
        requires
            self.failed_requests <= self.total_requests,
        ensures
            self.total_requests == 0 ==> r == (1u64, 1u64),
            self.total_requests > 0 ==> r == (
                (self.total_requests - self.failed_requests) as u64,
                self.total_requests,
            ),
    {
        if self.total_requests == 0 {
            (1, 1)
        } else {
            (self.total_requests - self.failed_requests, self.total_requests)
        }
    }
}

/// Collects request outcomes of one provider.
pub struct MetricsCollector {
    provider_name: String,
    samples: VecDeque<LatencySample>,
    total_requests: u64,
    failed_requests: u64,
}

impl MetricsCollector {
    pub closed spec fn wf(&self) -> bool {
        &&& self.samples@.len() <= MAX_SAMPLES
        &&& self.failed_requests <= self.total_requests
    }

    /// A well-formed collector's window holds at most `MAX_SAMPLES` samples,
    /// and its failures never outnumber its requests.
    pub proof fn lemma_wf_bounds(&self)
        requires
            self.wf(),
        ensures
            self.window().len() <= MAX_SAMPLES,
            self.failed() <= self.total(),
    {
    }

    pub closed spec fn name(&self) -> Seq<char> {
        self.provider_name@
    }

    /// The recent samples, oldest first.
    pub closed spec fn window(&self) -> Seq<LatencySample> {
        self.samples@
    }

    pub closed spec fn total(&self) -> u64 {
        self.total_requests
    }

    pub closed spec fn failed(&self) -> u64 {
        self.failed_requests
    }

    /// A collector with no samples and zero counters.
    pub fn new(provider_name: &str) -> (r: MetricsCollector)
        ensures
            r.wf(),
            r.window().len() <= MAX_SAMPLES,
            r.failed() <= r.total(),
            r.name() == provider_name@,
            r.window() == Seq::<LatencySample>::empty(),
            r.total() == 0,
            r.failed() == 0,
    {
        MetricsCollector {
            provider_name: provider_name.to_owned(),
            samples: VecDeque::with_capacity(MAX_SAMPLES),
            total_requests: 0,
            failed_requests: 0,
        }
    }

    /// Records one request: the sample enters the window (the oldest leaves
    /// first when it is full) and the lifetime counters grow, saturating at
    /// their maximum.
    pub fn record_request(&mut self, duration_us: u64, success: bool)
        requires
            old(self).wf(),
        ensures
            final(self).wf(),
            final(self).window().len() <= MAX_SAMPLES,
            final(self).failed() <= final(self).total(),
            final(self).name() == old(self).name(),
            final(self).window() == window_after(
                old(self).window(),
                LatencySample { duration_us, success },
            ),
            final(self).total() == old(self).total().saturating_add(1),
            final(self).failed() == if success {
                old(self).failed()
            } else {
                old(self).failed().saturating_add(1)
            },
    {
        self.total_requests = self.total_requests.saturating_add(1);
        if !success {
            self.failed_requests = self.failed_requests.saturating_add(1);
        }
        if self.samples.len() >= MAX_SAMPLES {
            self.samples.pop_front();
        }
        self.samples.push_back(LatencySample { duration_us, success });
    }

    /// Number of samples in the window.
    pub fn sample_count(&self) -> (r: usize)
        ensures
            r == self.window().len(),
    {
        self.samples.len()
    }

    /// A snapshot: percentiles over the successful samples of the window,
    /// counters over the collector's lifetime.
    pub fn get_metrics(&self) -> (r: ProviderMetrics)
        requires
            self.wf(),
        ensures
            r.provider_name@ == self.name(),
            spec_percentile(successful_latencies(self.window()), 50, r.latency_p50_us),
            spec_percentile(successful_latencies(self.window()), 99, r.latency_p99_us),
            r.total_requests == self.total(),
            r.failed_requests == self.failed(),
            r.failed_requests <= r.total_requests,
    {
        let mut latencies: Vec<u64> = Vec::new();
        let mut i: usize = 0;
        while i < self.samples.len()
            invariant
                i <= self.samples@.len(),
                latencies@ == successful_latencies(self.samples@.take(i as int)),
            decreases self.samples@.len() - i,
        {
            assert(self.samples@.take(i as int + 1).drop_last() =~= self.samples@.take(i as int));
            let s = self.samples[i];
            if s.success {
                latencies.push(s.duration_us);
            }
            i = i + 1;
        }
        assert(self.samples@.take(i as int) =~= self.samples@);
        let p50 = percentile(latencies.as_slice(), 50);
        let p99 = percentile(latencies.as_slice(), 99);
        ProviderMetrics {
            provider_name: self.provider_name.clone(),
            latency_p50_us: p50,
            latency_p99_us: p99,
            total_requests: self.total_requests,
            failed_requests: self.failed_requests,
        }
    }
}


/// Times one request: started at a known instant, marked successful when it
/// is, and recorded into a collector when it ends.
pub struct RequestTimer {
    start_us: u64,
    success: bool,
}

impl RequestTimer {
    pub closed spec fn start(&self) -> u64 {
        self.start_us
    }

    pub closed spec fn succeeded(&self) -> bool {
        self.success
    }

    /// A timer started at `start_us` (microseconds on a monotonic clock), not
    /// yet successful.
    pub fn new(start_us: u64) -> (r: RequestTimer)
        ensures
            r.start() == start_us,
            !r.succeeded(),
    {
        RequestTimer { start_us, success: false }
    }

    /// Marks the request as successful.
    pub fn mark_success(&mut self)
        ensures
            final(self).start() == old(self).start(),
            final(self).succeeded(),
    {
        self.success = true;
    }

    /// Records the request, ended at `end_us`, into `collector`: its duration
    /// (zero if the clock went back) and whether it was marked successful.
    pub fn finish(&self, end_us: u64, collector: &mut MetricsCollector)
        requires
            old(collector).wf(),
        ensures
            final(collector).wf(),
            final(collector).name() == old(collector).name(),
            final(collector).window() == window_after(
                old(collector).window(),
                LatencySample {
                    duration_us: if end_us >= self.start() {
                        (end_us - self.start()) as u64
                    } else {
                        0
                    },
                    success: self.succeeded(),
                },
            ),
            final(collector).total() == old(collector).total().saturating_add(1),
            final(collector).failed() == if self.succeeded() {
                old(collector).failed()
            } else {
                old(collector).failed().saturating_add(1)
            },
    {
        let duration = if end_us >= self.start_us {
            end_us - self.start_us
        } else {
            0
        };
        collector.record_request(duration, self.success);
    }
}

} // verus!
