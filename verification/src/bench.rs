//! Benchmark bookkeeping: per-benchmark latency statistics (count, total,
//! minimum, maximum) and the 99th-percentile sample, computed by sorting the
//! shared sample buffer in place.
use vstd::prelude::*;
use vstd::seq_lib::to_multiset_update;

verus! {

/// Number of samples the shared sample buffer holds.
pub const MAX_SAMPLES: usize = 10_000;

/// Statistics of one benchmark. The samples themselves live in a shared
/// buffer of `MAX_SAMPLES` entries that the methods take as an argument;
/// `sample_count` of them belong to this benchmark.
pub struct BenchResult {
    pub name: &'static str,
    pub iterations: usize,
    pub min_ns: u64,
    pub max_ns: u64,
    pub total_ns: u64,
    pub sample_count: usize,
}

/// `s` is in ascending order.
pub open spec fn is_sorted(s: Seq<u64>) -> bool {
    forall|a: int, b: int| 0 <= a <= b < s.len() ==> s[a] <= s[b]
}

/// The index of the 99th-percentile sample among `n` sorted samples.
pub open spec fn p99_index(n: int) -> int {
    n * 99 / 100
}

impl BenchResult {
    /// The sample count never exceeds the buffer.
    pub open spec fn wf(&self) -> bool {
        self.sample_count <= MAX_SAMPLES
    }

    /// A benchmark with no samples yet (minimum at `u64::MAX`).
    pub fn new(name: &'static str) -> (r: BenchResult)
        ensures
            r.wf(),
            r.name == name,
            r.iterations == 0,
            r.min_ns == u64::MAX,
            r.max_ns == 0,
            r.total_ns == 0,
            r.sample_count == 0,
    {
        BenchResult { name, iterations: 0, min_ns: u64::MAX, max_ns: 0, total_ns: 0, sample_count: 0 }
    }

    /// Record one measurement of `ns` nanoseconds: counted in the totals and
    /// the extremes, and stored in the sample buffer while it has room.
    pub fn record(&mut self, buf: &mut Vec<u64>, ns: u64)
        requires
            old(self).wf(),
            old(buf)@.len() == MAX_SAMPLES,
            old(self).iterations < usize::MAX,
            old(self).total_ns + ns <= u64::MAX,
        ensures
            final(self).wf(),
            final(self).name == old(self).name,
            final(self).iterations == old(self).iterations + 1,
            final(self).total_ns == old(self).total_ns + ns,
            final(self).min_ns == (if ns < old(self).min_ns { ns } else { old(self).min_ns }),
            final(self).max_ns == (if ns > old(self).max_ns { ns } else { old(self).max_ns }),
            old(self).sample_count < MAX_SAMPLES ==> {
                &&& final(self).sample_count == old(self).sample_count + 1
                &&& final(buf)@ == old(buf)@.update(old(self).sample_count as int, ns)
            },
            old(self).sample_count >= MAX_SAMPLES ==> {
                &&& final(self).sample_count == old(self).sample_count
                &&& final(buf)@ == old(buf)@
            },
    {
        self.iterations = self.iterations + 1;
        self.total_ns = self.total_ns + ns;
        if ns < self.min_ns {
            self.min_ns = ns;
        }
        if ns > self.max_ns {
            self.max_ns = ns;
        }
        if self.sample_count < MAX_SAMPLES {
            buf.set(self.sample_count, ns);
            self.sample_count = self.sample_count + 1;
        }
    }

    /// Mean latency in nanoseconds (0 before any measurement).
    pub fn avg_ns(&self) -> (r: u64)
        ensures
            self.iterations == 0 ==> r == 0,
            self.iterations > 0 ==> r == (self.total_ns as int) / (self.iterations as int),
    {
        if self.iterations == 0 {
            0
        } else {
            self.total_ns / (self.iterations as u64)
        }
    }

    /// Mean latency in whole microseconds.
    pub fn avg_us(&self) -> (r: u64)
        ensures
            self.iterations == 0 ==> r == 0,
            self.iterations > 0 ==> r == (self.total_ns as int) / (self.iterations as int) / 1000,
    {
        self.avg_ns() / 1000
    }

    /// The 99th-percentile latency in nanoseconds: the first `sample_count`
    /// entries of the buffer are sorted in place and the entry at
    /// `sample_count * 99 / 100` is returned (0 with no samples).
    pub fn p99_ns(&self, buf: &mut Vec<u64>) -> (r: u64)
        requires
            self.wf(),
            self.sample_count <= old(buf)@.len(),
        ensures
            final(buf)@.len() == old(buf)@.len(),
            self.sample_count == 0 ==> r == 0 && final(buf)@ == old(buf)@,
            self.sample_count > 0 ==> {
                let n = self.sample_count as int;
                &&& is_sorted(final(buf)@.subrange(0, n))
                &&& final(buf)@.subrange(0, n).to_multiset() == old(buf)@.subrange(0, n).to_multiset()
                &&& final(buf)@.subrange(n, final(buf)@.len() as int) == old(buf)@.subrange(n, old(buf)@.len() as int)
                &&& r == final(buf)@[p99_index(n)]
            },
    {
        let n = self.sample_count;
        if n == 0 {
            return 0;
        }
        sort_prefix(buf, n);
        let idx = n * 99 / 100;
        buf[idx]
    }

    /// The 99th-percentile latency in whole microseconds.
    pub fn p99_us(&self, buf: &mut Vec<u64>) -> (r: u64)
        requires
            self.wf(),
            self.sample_count <= old(buf)@.len(),
        ensures
            final(buf)@.len() == old(buf)@.len(),
            self.sample_count == 0 ==> r == 0 && final(buf)@ == old(buf)@,
            self.sample_count > 0 ==> {
                let n = self.sample_count as int;
                &&& is_sorted(final(buf)@.subrange(0, n))
                &&& final(buf)@.subrange(0, n).to_multiset() == old(buf)@.subrange(0, n).to_multiset()
                &&& final(buf)@.subrange(n, final(buf)@.len() as int) == old(buf)@.subrange(n, old(buf)@.len() as int)
                &&& r == final(buf)@[p99_index(n)] / 1000
            },
    {
        self.p99_ns(buf) / 1000
    }

    /// Zero this benchmark's samples in the shared buffer.
    pub fn reset_samples(&self, buf: &mut Vec<u64>)
        requires
            self.sample_count <= old(buf)@.len(),
        ensures
            final(buf)@.len() == old(buf)@.len(),
            forall|i: int| 0 <= i < self.sample_count ==> final(buf)@[i] == 0,
            forall|i: int| self.sample_count <= i < old(buf)@.len() ==> final(buf)@[i] == old(buf)@[i],
    {
        let mut i: usize = 0;
        while i < self.sample_count
            invariant
                i <= self.sample_count,
                self.sample_count <= old(buf)@.len(),
                buf@.len() == old(buf)@.len(),
                forall|k: int| 0 <= k < i ==> buf@[k] == 0,
                forall|k: int| i <= k < old(buf)@.len() ==> buf@[k] == old(buf)@[k],
            decreases self.sample_count - i,
        {
            buf.set(i, 0);
            i = i + 1;
        }
    }
}

/// Swapping two entries keeps the multiset of a sequence.
proof fn lemma_swap_multiset(s: Seq<u64>, i: int, j: int)
    requires
        0 <= i < s.len(),
        0 <= j < s.len(),
    ensures
        s.update(i, s[j]).update(j, s[i]).to_multiset() == s.to_multiset(),
{
    broadcast use vstd::multiset::group_multiset_axioms;
    let t = s.update(i, s[j]);
    to_multiset_update(s, i, s[j]);
    to_multiset_update(t, j, s[i]);
    if i == j {
        assert(t.update(j, s[i]) =~= s);
    } else {
        assert(t[j] == s[j]);
        let m = s.to_multiset();
        assert(s.contains(s[i]));
        vstd::seq_lib::to_multiset_contains(s, s[i]);
        assert(m.count(s[i]) > 0);
        assert(m.insert(s[j]).remove(s[i]).insert(s[i]).remove(s[j]) =~= m);
    }
}

/// Sort the first `n` entries of `buf` ascending by insertion (adjacent
/// swaps); the rest of the buffer is left alone.
fn sort_prefix(buf: &mut Vec<u64>, n: usize)
    requires
        n <= old(buf)@.len(),
    ensures
        final(buf)@.len() == old(buf)@.len(),
        is_sorted(final(buf)@.subrange(0, n as int)),
        final(buf)@.subrange(0, n as int).to_multiset() == old(buf)@.subrange(0, n as int).to_multiset(),
        final(buf)@.subrange(n as int, final(buf)@.len() as int) == old(buf)@.subrange(n as int, old(buf)@.len() as int),
{
    let ghost orig = buf@;
    let mut i: usize = 1;
    if n == 0 {
        assert(buf@.subrange(0, 0) =~= Seq::<u64>::empty());
        return;
    }
    while i < n
        invariant
            1 <= i <= n,
            n <= orig.len(),
            buf@.len() == orig.len(),
            is_sorted(buf@.subrange(0, i as int)),
            buf@.subrange(0, n as int).to_multiset() == orig.subrange(0, n as int).to_multiset(),
            forall|k: int| n <= k < orig.len() ==> buf@[k] == orig[k],
        decreases n - i,
    {
        proof {
            assert forall|a: int, b: int| 0 <= a <= b < i implies buf@[a] <= buf@[b] by {
                assert(buf@.subrange(0, i as int)[a] == buf@[a]);
                assert(buf@.subrange(0, i as int)[b] == buf@[b]);
            }
        }
        let mut j: usize = i;
        while j > 0 && buf[j - 1] > buf[j]
            invariant
                0 <= j <= i < n,
                n <= orig.len(),
                buf@.len() == orig.len(),
                // the prefix before j and the run after j are sorted
                forall|a: int, b: int| 0 <= a <= b < j ==> buf@[a] <= buf@[b],
                forall|a: int, b: int| j < a <= b <= i ==> buf@[a] <= buf@[b],
                // everything before j is at most everything after j
                forall|a: int, b: int| 0 <= a < j && j < b <= i ==> buf@[a] <= buf@[b],
                // the key at j is below everything after it
                forall|b: int| j < b <= i ==> buf@[j as int] < buf@[b],
                buf@.subrange(0, n as int).to_multiset() == orig.subrange(0, n as int).to_multiset(),
                forall|k: int| n <= k < orig.len() ==> buf@[k] == orig[k],
            decreases j,
        {
            let ghost before = buf@;
            let a = buf[j - 1];
            let b = buf[j];
            buf.set(j - 1, b);
            buf.set(j, a);
            proof {
                let p = before.subrange(0, n as int);
                assert(buf@.subrange(0, n as int) =~= p.update(j - 1, p[j as int]).update(j as int, p[j - 1]));
                lemma_swap_multiset(p, j - 1, j as int);
            }
            j = j - 1;
        }
        proof {
            assert forall|a: int, b: int| 0 <= a <= b < i + 1 implies #[trigger] buf@.subrange(0, i + 1)[a]
                <= #[trigger] buf@.subrange(0, i + 1)[b] by {
                assert(buf@.subrange(0, i + 1)[a] == buf@[a]);
                assert(buf@.subrange(0, i + 1)[b] == buf@[b]);
                if a < j && j < b {
                } else if a < j && b == j {
                } else if a == j && j < b {
                }
            }
        }
        i = i + 1;
    }
    assert(buf@.subrange(n as int, buf@.len() as int) =~= orig.subrange(n as int, orig.len() as int));
}

/// Gate 1 passes on IPC when the average round trip is under this many
/// microseconds.
pub const GATE1_IPC_LIMIT_US: u64 = 10;
/// Gate 1 passes on context switches when the average is under this many
/// microseconds.
pub const GATE1_CTX_LIMIT_US: u64 = 20;

/// Whether the measured averages (microseconds) meet Gate 1: first the IPC
/// round trip, then the context switch.
pub fn gate1_verdict(ipc_avg_us: u64, ctx_avg_us: u64) -> (r: (bool, bool))
    ensures
        r == (ipc_avg_us < GATE1_IPC_LIMIT_US, ctx_avg_us < GATE1_CTX_LIMIT_US),
{
    (ipc_avg_us < GATE1_IPC_LIMIT_US, ctx_avg_us < GATE1_CTX_LIMIT_US)
}

} // verus!
