//! Cycle-calibrated measurement: overhead calibration, bounded sample
//! buffers with drop accounting, integer nearest-rank percentiles, and the
//! versioned `BEGIN`/`METRIC`/`END` report envelope.
//!
//! Nothing here reads a clock. Whoever owns a cycle source hands in what it
//! read, and everything done with those readings is here.

use vstd::prelude::*;
use crate::sorting::{sort_values, sorted, lemma_sorted_properties, lemma_sorted_depends_only_on_elements};
use crate::text::{decimal, field, push_decimal, push_field};

verus! {

/// The report envelope's version sentinel.
pub const ENVELOPE: &'static str = "TINYOS-MEAS/1";

/// The unit every percentile in the envelope is denominated in.
pub const UNIT: &'static str = "cycles";

/// `a * b`, saturating at `usize::MAX`.
pub open spec fn saturating_mul(a: usize, b: usize) -> usize {
    if a * b > usize::MAX {
        usize::MAX
    } else {
        (a * b) as usize
    }
}

/// `a - b`, saturating at zero.
pub open spec fn saturating_sub(a: u64, b: u64) -> u64 {
    if a < b {
        0
    } else {
        (a - b) as u64
    }
}

/// A free-running cycle counter the harness reads. Nothing is assumed of a
/// reading: successive reads need not even be ordered.
pub trait CycleSource {
    /// The current counter value.
    fn read_cycles(&self) -> u64;
}

/// The measured cost of a pair of back-to-back cycle-source reads.
#[derive(Debug, Clone, Copy, PartialEq, Eq, Structural)]
pub struct Calibration {
    overhead_cycles: u64,
}

/// The smallest saturating read-pair delta among the first `k` pairs, or
/// `u64::MAX` when there are none.
pub open spec fn min_delta(pairs: Seq<(u64, u64)>, k: int) -> u64
    decreases k,
{
    if k <= 0 {
        u64::MAX
    } else {
        let earlier = min_delta(pairs, k - 1);
        let delta = saturating_sub(pairs[k - 1].1, pairs[k - 1].0);
        if delta < earlier {
            delta
        } else {
            earlier
        }
    }
}

/// The overhead a set of `(before, after)` read pairs calibrates to: the
/// minimum delta, or 0 when nothing was measured.
pub open spec fn calibrated_overhead(pairs: Seq<(u64, u64)>) -> u64 {
    let m = min_delta(pairs, pairs.len() as int);
    if m == u64::MAX {
        0
    } else {
        m
    }
}

/// `min_delta` over the first `k` pairs depends only on those pairs.
proof fn lemma_min_delta_prefix(pairs: Seq<(u64, u64)>, k: int)
    requires
        0 <= k <= pairs.len(),
    ensures
        min_delta(pairs, k) == min_delta(pairs.subrange(0, k), k),
    decreases k,
{
    if k > 0 {
        lemma_min_delta_prefix(pairs, k - 1);
        lemma_min_delta_prefix(pairs.subrange(0, k), k - 1);
        assert(pairs.subrange(0, k).subrange(0, k - 1) == pairs.subrange(0, k - 1));
    }
}

impl Calibration {
    /// The calibrated overhead.
    pub closed spec fn overhead_spec(&self) -> u64 {
        self.overhead_cycles
    }

    /// Calibrates from observed back-to-back `(before, after)` read pairs:
    /// the overhead is the minimum observed delta (the closest estimate of
    /// the irreducible read cost), and 0 when no pair was observed, so that
    /// nothing is subtracted.
    pub fn from_read_pairs(pairs: &[(u64, u64)]) -> (c: Self)
        ensures
            c.overhead_cycles() == calibrated_overhead(pairs@),
    {
        let mut overhead: u64 = u64::MAX;
        let mut k: usize = 0;
        while k < pairs.len()
            invariant
                k <= pairs@.len(),
                overhead == min_delta(pairs@, k as int),
            decreases pairs@.len() - k,
        {
            let (before, after) = pairs[k];
            let delta: u64 = after.saturating_sub(before);
            if delta < overhead {
                overhead = delta;
            }
            k = k + 1;
        }
        if overhead == u64::MAX {
            overhead = 0;
        }
        Calibration { overhead_cycles: overhead }
    }

    /// Calibrates against `source` over `samples` back-to-back read pairs,
    /// as [`Calibration::from_read_pairs`] does over the pairs read. With no
    /// pair to read the overhead is 0; otherwise it is at most the largest
    /// possible delta.
    pub fn measure<S: CycleSource>(source: &S, samples: usize) -> (c: Self)
        ensures
            samples == 0 ==> c.overhead_cycles() == 0,
            exists|pairs: Seq<(u64, u64)>|
                pairs.len() == samples && c.overhead_cycles() == calibrated_overhead(pairs),
    {
        let mut overhead: u64 = u64::MAX;
        let ghost mut pairs: Seq<(u64, u64)> = Seq::empty();
        let mut k: usize = 0;
        while k < samples
            invariant
                k <= samples,
                pairs.len() == k,
                overhead == min_delta(pairs, k as int),
            decreases samples - k,
        {
            let before = source.read_cycles();
            let after = source.read_cycles();
            proof {
                assert(pairs.push((before, after)).subrange(0, k as int) == pairs);
                lemma_min_delta_prefix(pairs.push((before, after)), k as int);
                pairs = pairs.push((before, after));
            }
            let delta: u64 = after.saturating_sub(before);
            if delta < overhead {
                overhead = delta;
            }
            k = k + 1;
        }
        if overhead == u64::MAX {
            overhead = 0;
        }
        Calibration { overhead_cycles: overhead }
    }

    /// A calibration with an already known overhead.
    pub fn from_overhead_cycles(overhead_cycles: u64) -> (c: Self)
        ensures
            c.overhead_cycles() == overhead_cycles,
    {
        Calibration { overhead_cycles }
    }

    /// The calibrated overhead, in cycles.
    #[verifier::when_used_as_spec(overhead_spec)]
    pub fn overhead_cycles(&self) -> (r: u64)
        ensures
            r == self.overhead_spec(),
    {
        self.overhead_cycles
    }

    /// `raw_delta` less the calibrated overhead, saturating at zero: a region
    /// cheaper than the read pair records 0, never a wrapped value.
    pub fn correct(&self, raw_delta: u64) -> (r: u64)
        ensures
            r == saturating_sub(raw_delta, self.overhead_cycles()),
    {
        raw_delta.saturating_sub(self.overhead_cycles)
    }
}

/// A timed region in progress: the source it is timed against and the
/// reading it started at.
pub struct Stopwatch<'a, S: CycleSource> {
    source: &'a S,
    started: u64,
}

impl<'a, S: CycleSource> Stopwatch<'a, S> {
    /// The reading the region started at.
    pub closed spec fn started_spec(&self) -> u64 {
        self.started
    }

    /// The source the region is timed against.
    pub closed spec fn source_spec(&self) -> &'a S {
        self.source
    }

    /// Reads `source` and starts timing.
    pub fn start(source: &'a S) -> (w: Self)
        ensures
            w.source_spec() == source,
    {
        Stopwatch { source, started: source.read_cycles() }
    }

    /// Reads the source again and returns the overhead-corrected span from
    /// the start: the raw delta less the calibrated overhead, each step
    /// saturating at zero (a reading that went backwards, or a region cheaper
    /// than the overhead, records 0).
    pub fn stop(self, calibration: &Calibration) -> (r: u64)
        ensures
            exists|ended: u64|
                r == saturating_sub(
                    saturating_sub(ended, self.started_spec()),
                    calibration.overhead_cycles(),
                ),
    {
        let ended = self.source.read_cycles();
        let span = calibration.correct(ended.saturating_sub(self.started));
        assert(span == saturating_sub(saturating_sub(ended, self.started_spec()), calibration.overhead_cycles()));
        span
    }
}

/// A bounded sample buffer with explicit drop accounting: at most `N`
/// samples are kept; every sample offered beyond that is counted as dropped
/// and never stored or allowed to displace one.
#[derive(Debug)]
pub struct Samples<const N: usize> {
    data: Vec<u64>,
    dropped: usize,
}

/// The nearest-rank index `(len - 1) * num / den` (with the product
/// saturating), for a non-empty sample set.
pub open spec fn rank(len: usize, num: usize, den: usize) -> int {
    (saturating_mul((len - 1) as usize, num) / den) as int
}

/// One phase's percentile summary.
#[derive(Debug, Clone, Copy, PartialEq, Eq, Structural)]
pub struct Summary {
    /// Samples the summary is computed from.
    pub n: usize,
    /// Samples offered but refused for lack of capacity.
    pub dropped: usize,
    /// Smallest sample.
    pub min: u64,
    /// Nearest-rank 50th percentile.
    pub p50: u64,
    /// Nearest-rank 99th percentile.
    pub p99: u64,
    /// Nearest-rank 99.9th percentile.
    pub p99_9: u64,
    /// Largest sample.
    pub max: u64,
}

/// The summary of an ascending, non-empty sample sequence.
pub open spec fn summary_of(ascending: Seq<u64>, dropped: usize) -> Summary {
    let len = ascending.len() as usize;
    Summary {
        n: len,
        dropped,
        min: ascending[0],
        p50: ascending[rank(len, 50, 100)],
        p99: ascending[rank(len, 99, 100)],
        p99_9: ascending[rank(len, 999, 1000)],
        max: ascending[len - 1],
    }
}

/// The nearest-rank percentile `num / den` of `sorted`, or `None` when the
/// slice is empty, `den` is zero, or the rank falls past the end.
pub open spec fn percentile_of(sorted: Seq<u64>, num: usize, den: usize) -> Option<u64> {
    if sorted.len() == 0 || den == 0 {
        None
    } else {
        let r = rank(sorted.len() as usize, num, den);
        if r < sorted.len() {
            Some(sorted[r])
        } else {
            None
        }
    }
}

/// Nearest-rank percentile over an already sorted slice, as the integer
/// fraction `num / den` (`50, 100` for p50; `999, 1000` for p99.9).
pub fn percentile(sorted: &[u64], num: usize, den: usize) -> (r: Option<u64>)
    ensures
        r == percentile_of(sorted@, num, den),
{
    if sorted.len() == 0 || den == 0 {
        return None;
    }
    let last: usize = sorted.len() - 1;
    let product: usize = match last.checked_mul(num) {
        Some(p) => p,
        None => usize::MAX,
    };
    let r: usize = product / den;
    if r < sorted.len() {
        Some(sorted[r])
    } else {
        None
    }
}

impl<const N: usize> Samples<N> {
    /// A buffer never holds more than its capacity.
    #[verifier::type_invariant]
    spec fn within_capacity(&self) -> bool {
        self.data.len() <= N
    }

    /// The recorded samples, in the buffer's current order.
    pub closed spec fn recorded(&self) -> Seq<u64> {
        self.data@
    }

    /// How many offered samples were refused.
    pub closed spec fn dropped_spec(&self) -> usize {
        self.dropped
    }

    /// An empty buffer.
    pub fn new() -> (s: Self)
        ensures
            s.recorded() == Seq::<u64>::empty(),
            s.dropped() == 0,
            s.recorded().len() <= N,
    {
        Samples { data: Vec::new(), dropped: 0 }
    }

    /// The capacity `N`.
    pub fn capacity(&self) -> (r: usize)
        ensures
            r == N,
    {
        N
    }

    /// How many samples are recorded: never more than the capacity.
    pub fn len(&self) -> (r: usize)
        ensures
            r == self.recorded().len(),
            r <= N,
    {
        proof {
            use_type_invariant(self);
        }
        self.data.len()
    }

    /// Whether no sample is recorded.
    pub fn is_empty(&self) -> (r: bool)
        ensures
            r == (self.recorded().len() == 0),
    {
        self.data.len() == 0
    }

    /// How many offered samples were refused because the buffer was full.
    #[verifier::when_used_as_spec(dropped_spec)]
    pub fn dropped(&self) -> (r: usize)
        ensures
            r == self.dropped_spec(),
    {
        self.dropped
    }

    /// Records one sample, returning whether it was stored. A full buffer
    /// refuses it, counts the drop, and keeps every sample it had.
    pub fn record(&mut self, cycles: u64) -> (stored: bool)
        requires
            old(self).recorded().len() >= N ==> old(self).dropped() < usize::MAX,
        ensures
            stored == (old(self).recorded().len() < N),
            stored ==> final(self).recorded() == old(self).recorded().push(cycles) && final(self).dropped() == old(self).dropped(),
            !stored ==> final(self).recorded() == old(self).recorded() && final(self).dropped()
                == old(self).dropped() + 1,
            final(self).recorded().len() <= N,
    {
        proof {
            use_type_invariant(&*self);
        }
        if self.data.len() >= N {
            self.dropped = self.dropped + 1;
            return false;
        }
        let mut data: Vec<u64> = Vec::new();
        std::mem::swap(&mut data, &mut self.data);
        data.push(cycles);
        self.data = data;
        true
    }

    /// Discards every recorded sample and the drop count, for reuse in the
    /// next phase.
    pub fn clear(&mut self)
        ensures
            final(self).recorded() == Seq::<u64>::empty(),
            final(self).dropped() == 0,
            final(self).recorded().len() <= N,
    {
        self.data = Vec::new();
        self.dropped = 0;
    }

    /// Sorts the recorded samples in place and summarizes them, or `None`
    /// (changing nothing) when nothing was recorded: a phase that recorded
    /// nothing failed, and must not read as a fast pass.
    pub fn summarize(&mut self) -> (r: Option<Summary>)
        ensures
            old(self).recorded().len() == 0 ==> r is None && final(self).recorded() == old(self).recorded(),
            old(self).recorded().len() > 0 ==> r == Some(
                summary_of(sorted(old(self).recorded()), old(self).dropped()),
            ) && final(self).recorded() == sorted(old(self).recorded()),
            final(self).dropped() == old(self).dropped(),
            final(self).recorded().len() <= N,
    {
        proof {
            use_type_invariant(&*self);
        }
        if self.data.len() == 0 {
            return None;
        }
        let ordered = sort_values(self.data.as_slice());
        proof {
            lemma_sorted_properties(self.data@);
        }
        self.data = ordered;
        let len: usize = self.data.len();
        let p50 = percentile(self.data.as_slice(), 50, 100);
        let p99 = percentile(self.data.as_slice(), 99, 100);
        let p99_9 = percentile(self.data.as_slice(), 999, 1000);
        proof {
            assert(rank(len, 50, 100) < len) by {
                lemma_rank_in_range(len, 50, 100);
            }
            assert(rank(len, 99, 100) < len) by {
                lemma_rank_in_range(len, 99, 100);
            }
            assert(rank(len, 999, 1000) < len) by {
                lemma_rank_in_range(len, 999, 1000);
            }
        }
        Some(
            Summary {
                n: len,
                dropped: self.dropped,
                min: self.data[0],
                p50: p50.unwrap(),
                p99: p99.unwrap(),
                p99_9: p99_9.unwrap(),
                max: self.data[len - 1],
            },
        )
    }
}

impl<const N: usize> Default for Samples<N> {
    fn default() -> (s: Self)
        ensures
            s.recorded() == Seq::<u64>::empty(),
            s.dropped() == 0,
    {
        Self::new()
    }
}


/// The run-scoped facts every metric in one report shares, written once on
/// the `BEGIN` line.
#[derive(Debug, Clone, Copy)]
pub struct Environment<'a> {
    /// Test-matrix tier the run comes from.
    pub tier: &'a str,
    /// Target architecture.
    pub arch: &'a str,
    /// Which cycle source produced the samples.
    pub cycle_source: &'a str,
    /// The calibrated read overhead already subtracted from every sample.
    pub overhead_cycles: u64,
    /// The cycles-per-microsecond factor, or `None` when no trustworthy one
    /// exists (written as `unknown`, never guessed).
    pub cycles_per_us: Option<u32>,
}

/// One metric's identity and summary, written as one `METRIC` line.
#[derive(Debug, Clone, Copy)]
pub struct Metric<'a> {
    /// The performance domain the metric is evidence for.
    pub domain: &'a str,
    /// The metric name, unique within one report.
    pub name: &'a str,
    /// Unmeasured warm-up iterations run before sampling.
    pub warmup: usize,
    /// The percentiles.
    pub summary: Summary,
}

/// The `BEGIN` line for `environment`.
pub open spec fn begin_line(environment: Environment) -> Seq<char> {
    ENVELOPE@ + " BEGIN tier="@ + environment.tier@ + " arch="@ + environment.arch@
        + " cycle_source="@ + environment.cycle_source@ + " overhead_cycles="@ + decimal(
        environment.overhead_cycles as nat,
    ) + " cycles_per_us="@ + match environment.cycles_per_us {
        Some(factor) => decimal(factor as nat),
        None => "unknown"@,
    } + "\n"@
}

/// The `METRIC` line for `metric`.
pub open spec fn metric_line(metric: Metric) -> Seq<char> {
    ENVELOPE@ + " METRIC domain="@ + metric.domain@ + " metric="@ + metric.name@ + metric_fields(
        metric,
    ) + " unit="@ + UNIT@ + "\n"@
}

/// The numeric fields of a `METRIC` line.
pub open spec fn metric_fields(metric: Metric) -> Seq<char> {
    field(" n="@, metric.summary.n as nat) + field(" dropped="@, metric.summary.dropped as nat)
        + field(" warmup="@, metric.warmup as nat) + field(" min="@, metric.summary.min as nat)
        + field(" p50="@, metric.summary.p50 as nat) + field(" p99="@, metric.summary.p99 as nat)
        + field(" p99_9="@, metric.summary.p99_9 as nat) + field(
        " max="@,
        metric.summary.max as nat,
    )
}

/// The `METRIC` lines for `metrics`, in order.
pub open spec fn metric_lines(metrics: Seq<Metric>) -> Seq<char>
    decreases metrics.len(),
{
    if metrics.len() == 0 {
        Seq::empty()
    } else {
        metric_lines(metrics.drop_last()) + metric_line(metrics.last())
    }
}

/// A whole report of `metrics`: the `BEGIN` line, one `METRIC` line per
/// metric in order, and the `END` line carrying their count.
pub open spec fn report_text(environment: Environment, metrics: Seq<Metric>) -> Seq<char> {
    begin_line(environment) + metric_lines(metrics) + end_line(metrics.len() as usize)
}

/// The `END` line for a report that wrote `emitted` metrics.
pub open spec fn end_line(emitted: usize) -> Seq<char> {
    ENVELOPE@ + " END metrics="@ + decimal(emitted as nat) + "\n"@
}

/// Writes the versioned envelope to a text sink: one `BEGIN` line, one
/// `METRIC` line per metric, and one `END` line whose count is the number
/// of `METRIC` lines actually written, so a truncated report is
/// distinguishable from a complete one.
#[derive(Debug)]
pub struct Report<'w> {
    /// The text written so far.
    pub sink: &'w mut String,
    /// How many `METRIC` lines this report has written.
    pub emitted: usize,
}

impl<'w> Report<'w> {
    /// Writes the `BEGIN` line and opens the report.
    pub fn begin(sink: &'w mut String, environment: &Environment<'_>) -> (r: Result<
        Report<'w>,
        core::fmt::Error,
    >)
        ensures
            r is Ok,
            r matches Ok(report) ==> {
                &&& report.emitted == 0
                &&& (*report.sink)@ == old(sink)@ + begin_line(*environment)
                &&& *final(sink) == *final(report.sink)
            },
    {
        sink.append(ENVELOPE);
        sink.append(" BEGIN tier=");
        sink.append(environment.tier);
        sink.append(" arch=");
        sink.append(environment.arch);
        sink.append(" cycle_source=");
        sink.append(environment.cycle_source);
        sink.append(" overhead_cycles=");
        push_decimal(sink, environment.overhead_cycles);
        sink.append(" cycles_per_us=");
        match environment.cycles_per_us {
            Some(factor) => push_decimal(sink, factor as u64),
            None => sink.append("unknown"),
        }
        sink.append("\n");
        assert(sink@ =~= old(sink)@ + begin_line(*environment));
        Ok(Report { sink, emitted: 0 })
    }

    /// Writes one `METRIC` line.
    pub fn metric(&mut self, metric: &Metric<'_>) -> (r: Result<(), core::fmt::Error>)
        requires
            old(self).emitted < usize::MAX,
        ensures
            r is Ok,
            final(self).emitted == old(self).emitted + 1,
            (*final(self).sink)@ == (*old(self).sink)@ + metric_line(*metric),
            *final(final(self).sink) == *final(old(self).sink),
    {
        let summary = &metric.summary;
        let ghost start = (*self.sink)@;
        self.sink.append(ENVELOPE);
        self.sink.append(" METRIC domain=");
        self.sink.append(metric.domain);
        self.sink.append(" metric=");
        self.sink.append(metric.name);
        let ghost head = (*self.sink)@;
        assert(head =~= start + (ENVELOPE@ + " METRIC domain="@ + metric.domain@ + " metric="@
            + metric.name@));
        push_field(self.sink, " n=", summary.n as u64);
        push_field(self.sink, " dropped=", summary.dropped as u64);
        push_field(self.sink, " warmup=", metric.warmup as u64);
        push_field(self.sink, " min=", summary.min);
        push_field(self.sink, " p50=", summary.p50);
        push_field(self.sink, " p99=", summary.p99);
        push_field(self.sink, " p99_9=", summary.p99_9);
        push_field(self.sink, " max=", summary.max);
        let ghost numbers = (*self.sink)@;
        assert(numbers =~= head + metric_fields(*metric));
        self.sink.append(" unit=");
        self.sink.append(UNIT);
        self.sink.append("\n");
        self.emitted = self.emitted + 1;
        assert((*self.sink)@ =~= (*old(self).sink)@ + metric_line(*metric));
        Ok(())
    }

    /// Writes the `END` line and returns how many `METRIC` lines were
    /// written.
    pub fn end(self) -> (r: Result<usize, core::fmt::Error>)
        ensures
            r == Ok::<usize, core::fmt::Error>(self.emitted),
            (*final(self.sink))@ == (*old(self.sink))@ + end_line(self.emitted),
    {
        let emitted = self.emitted;
        let sink = self.sink;
        sink.append(ENVELOPE);
        sink.append(" END metrics=");
        push_decimal(sink, emitted as u64);
        sink.append("\n");
        assert(sink@ =~= (*old(self.sink))@ + end_line(self.emitted));
        Ok(emitted)
    }
}

/// Summaries are monotone: `min <= p50 <= p99 <= p99.9 <= max`, for any
/// non-empty sample set small enough that no rank product saturates.
pub proof fn lemma_summary_is_monotone(samples: Seq<u64>, dropped: usize)
    requires
        samples.len() > 0,
        (samples.len() - 1) * 999 <= usize::MAX,
    ensures
        ({
            let s = summary_of(sorted(samples), dropped);
            &&& s.min <= s.p50
            &&& s.p50 <= s.p99
            &&& s.p99 <= s.p99_9
            &&& s.p99_9 <= s.max
        }),
{
    lemma_sorted_properties(samples);
    let len = samples.len() as usize;
    let l: int = len - 1;
    lemma_rank_in_range(len, 50, 100);
    lemma_rank_in_range(len, 99, 100);
    lemma_rank_in_range(len, 999, 1000);
    assert(saturating_mul((len - 1) as usize, 50) == l * 50);
    assert(saturating_mul((len - 1) as usize, 99) == l * 99);
    assert(saturating_mul((len - 1) as usize, 999) == l * 999);
    assert((l * 50) / 100 <= (l * 99) / 100) by (nonlinear_arith)
        requires
            l >= 0,
    ;
    assert((l * 99) / 100 <= (l * 999) / 1000) by (nonlinear_arith)
        requires
            l >= 0,
    ;
}

/// A summary depends only on which samples were recorded, not on the order
/// they were recorded in.
pub proof fn lemma_summary_is_order_independent(a: Seq<u64>, b: Seq<u64>, dropped: usize)
    requires
        a.to_multiset() == b.to_multiset(),
    ensures
        summary_of(sorted(a), dropped) == summary_of(sorted(b), dropped),
{
    lemma_sorted_depends_only_on_elements(a, b);
}

/// A nearest-rank index with `num <= den` is always a valid index.
pub proof fn lemma_rank_in_range(len: usize, num: usize, den: usize)
    requires
        len > 0,
        0 < den,
        num <= den,
    ensures
        0 <= rank(len, num, den) < len,
{
    let l: int = len - 1;
    let m: int = saturating_mul((len - 1) as usize, num) as int;
    let d: int = den as int;
    assert(l * num <= l * d) by (nonlinear_arith)
        requires
            num <= d,
            l >= 0,
    ;
    assert(m <= l * d);
    assert(0 <= m);
    assert(m / d <= l) by (nonlinear_arith)
        requires
            m <= l * d,
            0 < d,
            0 <= m,
    ;
}

/// Whether `after` is `before` with `count` more samples offered: kept while
/// there was room, counted as dropped after that, earlier samples untouched.
pub open spec fn offered<const N: usize>(before: Samples<N>, after: Samples<N>, count: nat) -> bool {
    let room: int = N - before.recorded().len();
    let kept: int = if count <= room {
        count as int
    } else if room > 0 {
        room
    } else {
        0
    };
    &&& after.recorded().len() == before.recorded().len() + kept
    &&& after.recorded().subrange(0, before.recorded().len() as int) == before.recorded()
    &&& after.dropped() == before.dropped() + (count - kept)
}

/// Offering one more sample extends [`offered`] by one.
proof fn lemma_offered_step<const N: usize>(
    before: Samples<N>,
    middle: Samples<N>,
    after: Samples<N>,
    count: nat,
)
    requires
        offered(before, middle, count),
        middle.recorded().len() < N ==> after.recorded() == middle.recorded().push(
            after.recorded().last(),
        ) && after.dropped() == middle.dropped(),
        middle.recorded().len() >= N ==> after.recorded() == middle.recorded()
            && after.dropped() == middle.dropped() + 1,
    ensures
        offered(before, after, count + 1),
{
    if middle.recorded().len() < N {
        assert(after.recorded().subrange(0, before.recorded().len() as int)
            == middle.recorded().subrange(0, before.recorded().len() as int));
    }
}

/// Offering nothing changes nothing.
pub(crate) proof fn lemma_offered_none<const N: usize>(samples: Samples<N>)
    ensures
        offered(samples, samples, 0),
{
    assert(samples.recorded().subrange(0, samples.recorded().len() as int) =~= samples.recorded());
}

/// Offers `cycles` to `samples`, keeping [`offered`] in step.
pub(crate) fn offer<const N: usize>(samples: &mut Samples<N>, cycles: u64, Ghost(start): Ghost<Samples<N>>, Ghost(count): Ghost<nat>)
    requires
        offered(start, *old(samples), count),
        start.dropped() + count < usize::MAX,
    ensures
        offered(start, *final(samples), count + 1),
{
    let ghost middle = *samples;
    let _ = samples.record(cycles);
    proof {
        lemma_offered_step(start, middle, *samples, count);
    }
}

} // verus!
