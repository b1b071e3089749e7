//! The qualification campaign's arithmetic: unaccounted physical time per
//! window, and the named refusals that keep a zero honest.
//!
//! Each window carries three advances over one interval: the physical
//! counter's, the virtual counter's, and the cycle counter's. Physical ticks
//! the cycle counter does not account for, at the campaign's own
//! self-calibrated rate (the median per-window ratio), are "unaccounted".
//! A campaign with no windows, a window that never closed, a cycle counter
//! that never advanced, or a clock that changed rate mid-campaign is
//! refused by name, never summarized as a distribution of zeros.

use vstd::prelude::*;
use crate::measure::{lemma_rank_in_range, percentile, rank, saturating_mul, saturating_sub};
use crate::sorting::{lemma_sorted_properties, sort_values, sorted};
use crate::text::{
    decimal,
    field,
    flag,
    hex_padded,
    lemma_decimal_len_of_words,
    push_decimal,
    push_field,
    push_flag,
    push_hex_padded,
};

verus! {

/// One window's three counter advances.
#[derive(Debug, Clone, Copy, PartialEq, Eq, Structural)]
pub struct WindowSample {
    /// The window's width in physical-counter ticks.
    pub cntpct_ticks: u64,
    /// The same window in virtual-counter ticks.
    pub cntvct_ticks: u64,
    /// The cycle counter's advance across the window.
    pub pmccntr_delta: u64,
}

/// Why a campaign refused to summarize.
#[derive(Debug, Clone, Copy, PartialEq, Eq, Structural)]
pub enum QualRefusal {
    /// No windows were collected.
    NoWindows,
    /// A window's physical advance is zero: it never closed.
    WindowNeverClosed,
    /// The median cycle-counter rate is zero: the counter never advanced.
    PmuDead,
    /// The scratch buffer is shorter than the sample set.
    ScratchTooSmall,
    /// A second, tightly grouped rate mode: the core clock moved during the
    /// campaign.
    ClockUnstable {
        /// The self-calibrated median rate.
        rate_p50: u64,
        /// The lowest per-window rate observed.
        rate_min: u64,
        /// How many windows sat below the median beyond quantisation.
        deviating_windows: u32,
        /// Out of how many.
        windows: u32,
    },
}

/// The `reason=` token of a refusal.
pub open spec fn reason(refusal: QualRefusal) -> Seq<char> {
    match refusal {
        QualRefusal::NoWindows => "no_windows"@,
        QualRefusal::WindowNeverClosed => "window_never_closed"@,
        QualRefusal::PmuDead => "pmu_dead"@,
        QualRefusal::ScratchTooSmall => "scratch_too_small"@,
        QualRefusal::ClockUnstable { .. } => "clock_unstable"@,
    }
}

impl QualRefusal {
    /// The `reason=` token the wire line carries.
    pub fn as_str(self) -> (s: &'static str)
        ensures
            s@ == reason(self),
    {
        match self {
            QualRefusal::NoWindows => "no_windows",
            QualRefusal::WindowNeverClosed => "window_never_closed",
            QualRefusal::PmuDead => "pmu_dead",
            QualRefusal::ScratchTooSmall => "scratch_too_small",
            QualRefusal::ClockUnstable { .. } => "clock_unstable",
        }
    }
}

/// `ceil(x / n)` for `n > 0`.
pub open spec fn ceil_div(x: int, n: int) -> int {
    (x + n - 1) / n
}

/// The largest rate disagreement the arithmetic itself can produce without
/// the clock having moved, for windows at least `narrowest` ticks wide:
/// `1 + ceil((1000 + rate) / narrowest)`, or `u64::MAX` for a zero width.
pub open spec fn quantisation(rate: u64, narrowest: u64) -> int {
    if narrowest == 0 {
        u64::MAX as int
    } else {
        1 + ceil_div(1000 + rate, narrowest as int)
    }
}

/// Whether [`rate_quantisation`] is defined on these inputs: its sum fits
/// in a `u64`.
pub open spec fn quantisation_fits(rate: u64, narrowest: u64) -> bool {
    narrowest == 0 || (1000 + rate <= u64::MAX && quantisation(rate, narrowest) <= u64::MAX)
}

/// The rate disagreement the instrument's own flooring divisions can
/// produce, in the units of [`CampaignSummary::pmu_per_1000_ticks`].
pub fn rate_quantisation(rate: u64, narrowest_window_ticks: u64) -> (r: u64)
    requires
        quantisation_fits(rate, narrowest_window_ticks),
    ensures
        r == quantisation(rate, narrowest_window_ticks),
{
    if narrowest_window_ticks == 0 {
        return u64::MAX;
    }
    let x: u64 = 1000 + rate;
    let whole: u64 = x / narrowest_window_ticks;
    let part: u64 = if x % narrowest_window_ticks != 0 {
        1
    } else {
        0
    };
    assert(whole + part == ceil_div(x as int, narrowest_window_ticks as int)) by (nonlinear_arith)
        requires
            narrowest_window_ticks > 0,
            whole == x / narrowest_window_ticks,
            part == (if x % narrowest_window_ticks != 0 {
                1int
            } else {
                0int
            }),
    ;
    1 + (whole + part)
}

/// What one campaign measured.
#[derive(Debug, Clone, Copy, PartialEq, Eq, Structural)]
pub struct CampaignSummary {
    /// Windows summarized.
    pub windows: u32,
    /// The commanded window width, physical ticks.
    pub window_ticks: u64,
    /// The self-calibrated rate: median cycles per 1000 physical ticks.
    pub pmu_per_1000_ticks: u64,
    /// Smallest per-window unaccounted physical ticks.
    pub unaccounted_min: u64,
    /// Median.
    pub unaccounted_p50: u64,
    /// 99th percentile (nearest rank).
    pub unaccounted_p99: u64,
    /// 99.9th percentile.
    pub unaccounted_p99_9: u64,
    /// Largest.
    pub unaccounted_max: u64,
    /// Largest per-window physical/virtual counter disagreement.
    pub offset_disagreement_max: u64,
}

/// `a * b`, saturating at `u64::MAX`.
pub open spec fn saturating_mul_u64(a: u64, b: u64) -> u64 {
    if a * b > u64::MAX {
        u64::MAX
    } else {
        (a * b) as u64
    }
}

/// `a * b` for `u64`, saturating.
fn mul_saturating(a: u64, b: u64) -> (r: u64)
    ensures
        r == saturating_mul_u64(a, b),
{
    match a.checked_mul(b) {
        Some(p) => p,
        None => u64::MAX,
    }
}

/// One window's unaccounted physical ticks at `rate` cycles per 1000 ticks:
/// its width less what its cycle advance accounts for, saturating at zero.
pub open spec fn unaccounted(sample: WindowSample, rate: u64) -> u64 {
    if rate == 0 {
        sample.cntpct_ticks
    } else {
        saturating_sub(
            sample.cntpct_ticks,
            (saturating_mul_u64(sample.pmccntr_delta, 1000) / rate) as u64,
        )
    }
}

/// One window's unaccounted physical ticks at a given cycle-counter rate;
/// a window whose cycle advance accounts for more than its width is zero,
/// never a wrapped enormity.
pub fn unaccounted_ticks(sample: &WindowSample, pmu_per_1000_ticks: u64) -> (r: u64)
    ensures
        r == unaccounted(*sample, pmu_per_1000_ticks),
{
    if pmu_per_1000_ticks == 0 {
        return sample.cntpct_ticks;
    }
    sample.cntpct_ticks.saturating_sub(
        mul_saturating(sample.pmccntr_delta, 1000) / pmu_per_1000_ticks,
    )
}

/// A window's cycles per 1000 physical ticks.
pub open spec fn window_ratio(sample: WindowSample) -> u64 {
    (saturating_mul_u64(sample.pmccntr_delta, 1000) / sample.cntpct_ticks) as u64
}

/// Every window's ratio, in window order.
pub open spec fn ratios(samples: Seq<WindowSample>) -> Seq<u64> {
    samples.map_values(|s: WindowSample| window_ratio(s))
}

/// The narrowest width among the first `k` windows (`u64::MAX` for none).
pub open spec fn narrowest(samples: Seq<WindowSample>, k: int) -> u64
    decreases k,
{
    if k <= 0 {
        u64::MAX
    } else {
        let earlier = narrowest(samples, k - 1);
        if samples[k - 1].cntpct_ticks < earlier {
            samples[k - 1].cntpct_ticks
        } else {
            earlier
        }
    }
}

/// The self-calibrated rate: the median of the sorted ratios.
pub open spec fn campaign_rate(samples: Seq<WindowSample>) -> u64 {
    sorted(ratios(samples))[rank(samples.len() as usize, 1, 2)]
}

/// Below this rate a window deviates beyond quantisation.
pub open spec fn deviation_floor(samples: Seq<WindowSample>) -> u64 {
    let rate = campaign_rate(samples);
    if rate < quantisation(rate, narrowest(samples, samples.len() as int)) {
        0
    } else {
        (rate - quantisation(rate, narrowest(samples, samples.len() as int))) as u64
    }
}

/// How many values from index `i` on lie below `floor` before the first
/// one that does not.
pub open spec fn leading_below(values: Seq<u64>, floor: u64, i: int) -> nat
    decreases values.len() - i,
{
    if i < 0 || i >= values.len() || values[i] >= floor {
        0
    } else {
        1 + leading_below(values, floor, i + 1)
    }
}

/// How many windows deviate: the sorted ratios below the floor.
pub open spec fn deviating(samples: Seq<WindowSample>) -> nat {
    leading_below(sorted(ratios(samples)), deviation_floor(samples), 0)
}

/// Whether the deviating windows form a second mode: at least two of them,
/// and more than 1% of the windows.
pub open spec fn clock_moved(samples: Seq<WindowSample>) -> bool {
    deviating(samples) >= 2 && saturating_mul(deviating(samples) as usize, 100) > samples.len()
}

/// The largest physical/virtual disagreement among the first `k` windows.
pub open spec fn offset_max(samples: Seq<WindowSample>, k: int) -> u64
    decreases k,
{
    if k <= 0 {
        0
    } else {
        let earlier = offset_max(samples, k - 1);
        let s = samples[k - 1];
        let d = if s.cntpct_ticks > s.cntvct_ticks {
            (s.cntpct_ticks - s.cntvct_ticks) as u64
        } else {
            (s.cntvct_ticks - s.cntpct_ticks) as u64
        };
        if d > earlier {
            d
        } else {
            earlier
        }
    }
}

/// Every window's unaccounted ticks at `rate`, in window order.
pub open spec fn unaccounted_all(samples: Seq<WindowSample>, rate: u64) -> Seq<u64> {
    samples.map_values(|s: WindowSample| unaccounted(s, rate))
}

/// Whether some window never closed.
pub open spec fn some_unclosed(samples: Seq<WindowSample>) -> bool {
    exists|i: int| 0 <= i < samples.len() && (#[trigger] samples[i]).cntpct_ticks == 0
}

/// Whether the campaign gets as far as checking for a second clock mode.
pub open spec fn reaches_clock_check(samples: Seq<WindowSample>, scratch_len: nat) -> bool {
    &&& samples.len() > 0
    &&& scratch_len >= samples.len()
    &&& !some_unclosed(samples)
    &&& campaign_rate(samples) != 0
}

/// The refusal a campaign ends in, if any, in the order the checks run.
pub open spec fn refusal(samples: Seq<WindowSample>, scratch_len: nat) -> Option<QualRefusal> {
    if samples.len() == 0 {
        Some(QualRefusal::NoWindows)
    } else if scratch_len < samples.len() {
        Some(QualRefusal::ScratchTooSmall)
    } else if some_unclosed(samples) {
        Some(QualRefusal::WindowNeverClosed)
    } else if campaign_rate(samples) == 0 {
        Some(QualRefusal::PmuDead)
    } else if clock_moved(samples) {
        Some(
            QualRefusal::ClockUnstable {
                rate_p50: campaign_rate(samples),
                rate_min: sorted(ratios(samples))[0],
                deviating_windows: deviating(samples) as u32,
                windows: samples.len() as u32,
            },
        )
    } else {
        None
    }
}

/// The summary of a campaign that is not refused.
pub open spec fn campaign_summary(samples: Seq<WindowSample>, window_ticks: u64) -> CampaignSummary {
    let len = samples.len() as usize;
    let rate = campaign_rate(samples);
    let u = sorted(unaccounted_all(samples, rate));
    CampaignSummary {
        windows: len as u32,
        window_ticks,
        pmu_per_1000_ticks: rate,
        unaccounted_min: u[0],
        unaccounted_p50: u[rank(len, 1, 2)],
        unaccounted_p99: u[rank(len, 99, 100)],
        unaccounted_p99_9: u[rank(len, 999, 1000)],
        unaccounted_max: u[len - 1],
        offset_disagreement_max: offset_max(samples, samples.len() as int),
    }
}

/// The offset maximum of the first `k` windows bounds each of their
/// physical/virtual disagreements, in either direction, and is one of
/// them (or 0 when there are none).
proof fn lemma_offset_max_bounds_and_is_attained(samples: Seq<WindowSample>, k: int)
    requires
        0 <= k <= samples.len(),
    ensures
        forall|i: int|
            0 <= i < k ==> {
                &&& (#[trigger] samples[i]).cntpct_ticks - samples[i].cntvct_ticks <= offset_max(samples, k)
                &&& samples[i].cntvct_ticks - samples[i].cntpct_ticks <= offset_max(samples, k)
            },
        offset_max(samples, k) == 0 || exists|i: int|
            0 <= i < k && (offset_max(samples, k) == (#[trigger] samples[i]).cntpct_ticks
                - samples[i].cntvct_ticks || offset_max(samples, k) == samples[i].cntvct_ticks
                - samples[i].cntpct_ticks),
    decreases k,
{
    if k > 0 {
        lemma_offset_max_bounds_and_is_attained(samples, k - 1);
        let last = samples[k - 1];
        if offset_max(samples, k) != 0 && offset_max(samples, k) != offset_max(samples, k - 1) {
            assert(offset_max(samples, k) == last.cntpct_ticks - last.cntvct_ticks
                || offset_max(samples, k) == last.cntvct_ticks - last.cntpct_ticks);
        }
    }
}

/// A campaign's offset disagreement is the largest per-window
/// `|cntpct - cntvct|`: no window disagrees by more, in either direction
/// (a virtual counter ahead of the physical one counts as much as one
/// behind), and some window disagrees by exactly that much, unless every
/// window agrees and it is 0.
pub proof fn lemma_offset_disagreement_is_the_largest(samples: Seq<WindowSample>, window_ticks: u64)
    ensures
        ({
            let m = campaign_summary(samples, window_ticks).offset_disagreement_max;
            &&& forall|i: int|
                0 <= i < samples.len() ==> {
                    &&& (#[trigger] samples[i]).cntpct_ticks - samples[i].cntvct_ticks <= m
                    &&& samples[i].cntvct_ticks - samples[i].cntpct_ticks <= m
                }
            &&& (m == 0 || exists|i: int|
                0 <= i < samples.len() && (m == (#[trigger] samples[i]).cntpct_ticks
                    - samples[i].cntvct_ticks || m == samples[i].cntvct_ticks
                    - samples[i].cntpct_ticks))
        }),
{
    lemma_offset_max_bounds_and_is_attained(samples, samples.len() as int);
}

/// Every element of `values` appears in its sorted form, which holds
/// nothing else.
proof fn lemma_sorted_same_elements(values: Seq<u64>)
    ensures
        forall|i: int| 0 <= i < values.len() ==> sorted(values).contains(#[trigger] values[i]),
        forall|k: int| 0 <= k < values.len() ==> values.contains(#[trigger] sorted(values)[k]),
{
    lemma_sorted_properties(values);
    values.to_multiset_ensures();
    sorted(values).to_multiset_ensures();
    assert forall|i: int| 0 <= i < values.len() implies sorted(values).contains(
        #[trigger] values[i],
    ) by {
        assert(values.contains(values[i]));
        assert(values.to_multiset().count(values[i]) > 0);
        assert(sorted(values).to_multiset().count(values[i]) > 0);
    }
    assert forall|k: int| 0 <= k < values.len() implies values.contains(
        #[trigger] sorted(values)[k],
    ) by {
        assert(sorted(values).contains(sorted(values)[k]));
        assert(sorted(values).to_multiset().count(sorted(values)[k]) > 0);
        assert(values.to_multiset().count(sorted(values)[k]) > 0);
    }
}

/// A campaign summary counts every window and keeps the commanded width;
/// its rate is one window's own cycles-per-1000-ticks ratio, between the
/// smallest and the largest; and its unaccounted minimum and maximum are
/// the smallest and the largest of the windows' unaccounted ticks at that
/// rate, each attained by some window.
pub proof fn lemma_campaign_summary_extremes(samples: Seq<WindowSample>, window_ticks: u64)
    requires
        0 < samples.len() <= usize::MAX,
    ensures
        ({
            let s = campaign_summary(samples, window_ticks);
            let rate = s.pmu_per_1000_ticks;
            &&& s.windows == samples.len() as u32
            &&& s.window_ticks == window_ticks
            &&& exists|i: int| 0 <= i < samples.len() && rate == window_ratio(#[trigger] samples[i])
            &&& forall|i: int|
                0 <= i < samples.len() ==> {
                    &&& s.unaccounted_min <= unaccounted(#[trigger] samples[i], rate)
                    &&& unaccounted(samples[i], rate) <= s.unaccounted_max
                }
            &&& exists|i: int|
                0 <= i < samples.len() && s.unaccounted_min == unaccounted(#[trigger] samples[i], rate)
            &&& exists|i: int|
                0 <= i < samples.len() && s.unaccounted_max == unaccounted(#[trigger] samples[i], rate)
        }),
{
    let len = samples.len() as usize;
    let r = ratios(samples);
    let rate = campaign_rate(samples);
    let u = unaccounted_all(samples, rate);
    lemma_rank_in_range(len, 1, 2);
    lemma_sorted_properties(r);
    lemma_sorted_properties(u);
    lemma_sorted_same_elements(r);
    lemma_sorted_same_elements(u);
    let m = rank(len, 1, 2);
    assert(r.contains(sorted(r)[m]));
    let i = choose|i: int| 0 <= i < r.len() && #[trigger] r[i] == sorted(r)[m];
    assert(rate == window_ratio(samples[i]));
    assert forall|i: int| 0 <= i < samples.len() implies {
        &&& sorted(u)[0] <= unaccounted(#[trigger] samples[i], rate)
        &&& unaccounted(samples[i], rate) <= sorted(u)[len - 1]
    } by {
        assert(u[i] == unaccounted(samples[i], rate));
        assert(sorted(u).contains(u[i]));
        let k = choose|k: int| 0 <= k < sorted(u).len() && #[trigger] sorted(u)[k] == u[i];
        assert(sorted(u)[0] <= sorted(u)[k]);
        assert(sorted(u)[k] <= sorted(u)[len - 1]);
    }
    assert(u.contains(sorted(u)[0]));
    let lo = choose|i: int| 0 <= i < u.len() && #[trigger] u[i] == sorted(u)[0];
    assert(sorted(u)[0] == unaccounted(samples[lo], rate));
    assert(u.contains(sorted(u)[len - 1]));
    let hi = choose|i: int| 0 <= i < u.len() && #[trigger] u[i] == sorted(u)[len - 1];
    assert(sorted(u)[len - 1] == unaccounted(samples[hi], rate));
}

/// A campaign summary's unaccounted ticks are monotone:
/// `min <= p50 <= p99 <= p99.9 <= max`, for any non-empty campaign small
/// enough that no rank product saturates.
pub proof fn lemma_campaign_summary_is_monotone(samples: Seq<WindowSample>, window_ticks: u64)
    requires
        samples.len() > 0,
        (samples.len() - 1) * 999 <= usize::MAX,
    ensures
        ({
            let s = campaign_summary(samples, window_ticks);
            &&& s.unaccounted_min <= s.unaccounted_p50
            &&& s.unaccounted_p50 <= s.unaccounted_p99
            &&& s.unaccounted_p99 <= s.unaccounted_p99_9
            &&& s.unaccounted_p99_9 <= s.unaccounted_max
        }),
{
    let values = unaccounted_all(samples, campaign_rate(samples));
    lemma_sorted_properties(values);
    let len = samples.len() as usize;
    let l: int = len - 1;
    lemma_rank_in_range(len, 1, 2);
    lemma_rank_in_range(len, 99, 100);
    lemma_rank_in_range(len, 999, 1000);
    assert(saturating_mul((len - 1) as usize, 1) == l);
    assert(saturating_mul((len - 1) as usize, 99) == l * 99);
    assert(saturating_mul((len - 1) as usize, 999) == l * 999);
    assert(l / 2 <= (l * 99) / 100) by (nonlinear_arith)
        requires
            l >= 0,
    ;
    assert((l * 99) / 100 <= (l * 999) / 1000) by (nonlinear_arith)
        requires
            l >= 0,
    ;
}

/// The index of the first window that never closed.
pub open spec fn first_unclosed(samples: Seq<WindowSample>) -> int {
    choose|i: int|
        0 <= i < samples.len() && samples[i].cntpct_ticks == 0 && forall|j: int|
            0 <= j < i ==> (#[trigger] samples[j]).cntpct_ticks != 0
}


/// Whether the first `k` entries of `values` equal `prefix` and the rest
/// equal `rest`.
pub open spec fn prefix_then(values: Seq<u64>, prefix: Seq<u64>, rest: Seq<u64>, k: int) -> bool {
    &&& values.len() == rest.len()
    &&& forall|i: int|
        0 <= i < values.len() ==> #[trigger] values[i] == if i < k {
            prefix[i]
        } else {
            rest[i]
        }
}

/// Copies `values` over the front of `scratch`.
fn copy_prefix(scratch: &mut [u64], values: &Vec<u64>)
    requires
        values@.len() <= old(scratch)@.len(),
    ensures
        prefix_then(final(scratch)@, values@, old(scratch)@, values@.len() as int),
{
    let mut k: usize = 0;
    while k < values.len()
        invariant
            k <= values@.len(),
            values@.len() <= scratch@.len(),
            prefix_then(scratch@, values@, old(scratch)@, k as int),
        decreases values@.len() - k,
    {
        let n: usize = scratch.len();
        assert(k < n);
        scratch[k] = values[k];
        k = k + 1;
    }
}

/// Summarizes a campaign's windows, or refuses by name.
///
/// `scratch` must be at least as long as `samples`; its front is left
/// holding the sorted ratios when the campaign is refused after computing
/// them, the sorted unaccounted values when it is summarized, and the
/// ratios of the windows before the first unclosed one when a window never
/// closed.
#[verifier::rlimit(50)]
pub fn summarize(samples: &[WindowSample], scratch: &mut [u64], window_ticks: u64) -> (r: Result<
    CampaignSummary,
    QualRefusal,
>)
    requires
        reaches_clock_check(samples@, old(scratch)@.len()) ==> quantisation_fits(
            campaign_rate(samples@),
            narrowest(samples@, samples@.len() as int),
        ),
    ensures
        r == match refusal(samples@, old(scratch)@.len()) {
            Some(e) => Err::<CampaignSummary, QualRefusal>(e),
            None => Ok(campaign_summary(samples@, window_ticks)),
        },
        refusal(samples@, old(scratch)@.len()) matches Some(e) && (e is NoWindows
            || e is ScratchTooSmall) ==> final(scratch)@ == old(scratch)@,
        refusal(samples@, old(scratch)@.len()) == Some(QualRefusal::WindowNeverClosed)
            ==> prefix_then(
            final(scratch)@,
            ratios(samples@),
            old(scratch)@,
            first_unclosed(samples@),
        ),
        refusal(samples@, old(scratch)@.len()) matches Some(e) && (e is PmuDead
            || e is ClockUnstable) ==> prefix_then(
            final(scratch)@,
            sorted(ratios(samples@)),
            old(scratch)@,
            samples@.len() as int,
        ),
        refusal(samples@, old(scratch)@.len()) is None ==> prefix_then(
            final(scratch)@,
            sorted(unaccounted_all(samples@, campaign_rate(samples@))),
            old(scratch)@,
            samples@.len() as int,
        ),
        r matches Ok(summary) ==> {
            &&& forall|i: int|
                0 <= i < samples@.len() ==> {
                    &&& (#[trigger] samples@[i]).cntpct_ticks - samples@[i].cntvct_ticks
                        <= summary.offset_disagreement_max
                    &&& samples@[i].cntvct_ticks - samples@[i].cntpct_ticks
                        <= summary.offset_disagreement_max
                }
            &&& (summary.offset_disagreement_max == 0 || exists|i: int|
                0 <= i < samples@.len() && (summary.offset_disagreement_max == (
                #[trigger] samples@[i]).cntpct_ticks - samples@[i].cntvct_ticks
                    || summary.offset_disagreement_max == samples@[i].cntvct_ticks
                    - samples@[i].cntpct_ticks))
        },
{
    proof {
        lemma_offset_disagreement_is_the_largest(samples@, window_ticks);
    }
    let n: usize = samples.len();
    if n == 0 {
        return Err(QualRefusal::NoWindows);
    }
    if scratch.len() < n {
        return Err(QualRefusal::ScratchTooSmall);
    }
    // Pass one: every window's ratio, and the narrowest window.
    let mut narrowest_ticks: u64 = u64::MAX;
    let mut window_ratios: Vec<u64> = Vec::new();
    let mut i: usize = 0;
    while i < n
        invariant
            i <= n,
            n == samples@.len(),
            n <= scratch@.len(),
            window_ratios@ == ratios(samples@).subrange(0, i as int),
            narrowest_ticks == narrowest(samples@, i as int),
            forall|j: int| 0 <= j < i ==> (#[trigger] samples@[j]).cntpct_ticks != 0,
            prefix_then(scratch@, ratios(samples@), old(scratch)@, i as int),
        decreases n - i,
    {
        let sample = samples[i];
        if sample.cntpct_ticks == 0 {
            proof {
                assert(some_unclosed(samples@));
                let z = first_unclosed(samples@);
                assert(0 <= z < samples@.len() && samples@[z].cntpct_ticks == 0 && forall|j: int|
                    0 <= j < z ==> (#[trigger] samples@[j]).cntpct_ticks != 0) by {
                    assert(0 <= i < samples@.len() && samples@[i as int].cntpct_ticks == 0
                        && forall|j: int| 0 <= j < i ==> (#[trigger] samples@[j]).cntpct_ticks != 0);
                }
                if z < i {
                    assert(samples@[z].cntpct_ticks != 0);
                } else if z > i {
                    assert(samples@[i as int].cntpct_ticks != 0);
                }
            }
            return Err(QualRefusal::WindowNeverClosed);
        }
        if sample.cntpct_ticks < narrowest_ticks {
            narrowest_ticks = sample.cntpct_ticks;
        }
        let ratio: u64 = mul_saturating(sample.pmccntr_delta, 1000) / sample.cntpct_ticks;
        window_ratios.push(ratio);
        let len: usize = scratch.len();
        assert(i < len);
        scratch[i] = ratio;
        proof {
            assert(window_ratios@ =~= ratios(samples@).subrange(0, i + 1));
        }
        i = i + 1;
    }
    proof {
        assert(window_ratios@ =~= ratios(samples@));
        assert(!some_unclosed(samples@));
    }
    let ordered_ratios = sort_values(window_ratios.as_slice());
    proof {
        lemma_sorted_properties(ratios(samples@));
    }
    copy_prefix(scratch, &ordered_ratios);
    proof {
        crate::measure::lemma_rank_in_range(n, 1, 2);
    }
    let rate: u64 = match percentile(ordered_ratios.as_slice(), 1, 2) {
        Some(value) => value,
        None => 0,
    };
    assert(rate == campaign_rate(samples@));
    if rate == 0 {
        return Err(QualRefusal::PmuDead);
    }
    // Was there one clock? Count the windows below the calibrated rate by
    // more than the arithmetic's own quantisation.
    let floor: u64 = rate.saturating_sub(rate_quantisation(rate, narrowest_ticks));
    assert(floor == deviation_floor(samples@));
    let ghost values = ordered_ratios@;
    let mut below: usize = 0;
    while below < n && ordered_ratios[below] < floor
        invariant
            below <= n,
            n == values.len(),
            values == ordered_ratios@,
            leading_below(values, floor, 0) == below + leading_below(values, floor, below as int),
        decreases n - below,
    {
        proof {
            assert(leading_below(values, floor, below as int) == 1 + leading_below(
                values,
                floor,
                below + 1,
            ));
        }
        below = below + 1;
    }
    assert(leading_below(values, floor, below as int) == 0);
    assert(below == deviating(samples@));
    let many: bool = match below.checked_mul(100) {
        Some(p) => p > n,
        None => usize::MAX > n,
    };
    assert(many == (saturating_mul(below, 100) > n));
    assert(deviating(samples@) as usize == below);
    if below >= 2 && many {
        assert(clock_moved(samples@));
        return Err(
            QualRefusal::ClockUnstable {
                rate_p50: rate,
                rate_min: ordered_ratios[0],
                deviating_windows: below as u32,
                windows: n as u32,
            },
        );
    }
    assert(!clock_moved(samples@));
    // Pass two: every window's unaccounted ticks at that rate, and the
    // largest counter disagreement beside it.
    let mut offset_disagreement_max: u64 = 0;
    let mut stolen: Vec<u64> = Vec::new();
    let mut k: usize = 0;
    while k < n
        invariant
            k <= n,
            n == samples@.len(),
            stolen@ == unaccounted_all(samples@, rate).subrange(0, k as int),
            offset_disagreement_max == offset_max(samples@, k as int),
        decreases n - k,
    {
        let sample = samples[k];
        stolen.push(unaccounted_ticks(&sample, rate));
        let disagreement: u64 = if sample.cntpct_ticks > sample.cntvct_ticks {
            sample.cntpct_ticks - sample.cntvct_ticks
        } else {
            sample.cntvct_ticks - sample.cntpct_ticks
        };
        if disagreement > offset_disagreement_max {
            offset_disagreement_max = disagreement;
        }
        proof {
            assert(stolen@ =~= unaccounted_all(samples@, rate).subrange(0, k + 1));
        }
        k = k + 1;
    }
    proof {
        assert(stolen@ =~= unaccounted_all(samples@, rate));
    }
    let ordered = sort_values(stolen.as_slice());
    proof {
        lemma_sorted_properties(unaccounted_all(samples@, rate));
        crate::measure::lemma_rank_in_range(n, 99, 100);
        crate::measure::lemma_rank_in_range(n, 999, 1000);
    }
    copy_prefix(scratch, &ordered);
    let p50: u64 = match percentile(ordered.as_slice(), 1, 2) {
        Some(value) => value,
        None => 0,
    };
    let p99: u64 = match percentile(ordered.as_slice(), 99, 100) {
        Some(value) => value,
        None => 0,
    };
    let p99_9: u64 = match percentile(ordered.as_slice(), 999, 1000) {
        Some(value) => value,
        None => 0,
    };
    Ok(
        CampaignSummary {
            windows: n as u32,
            window_ticks,
            pmu_per_1000_ticks: rate,
            unaccounted_min: ordered[0],
            unaccounted_p50: p50,
            unaccounted_p99: p99,
            unaccounted_p99_9: p99_9,
            unaccounted_max: ordered[n - 1],
            offset_disagreement_max,
        },
    )
}

/// Whether the positive control was seen: its excursion stands
/// strictly above every idle window's, and is nonzero.
pub fn control_seen(idle: &CampaignSummary, control_unaccounted: u64) -> (r: bool)
    ensures
        r == (control_unaccounted > idle.unaccounted_max && control_unaccounted > 0),
{
    control_unaccounted > idle.unaccounted_max && control_unaccounted > 0
}

/// The wire framing every qualification line starts with.
pub const QUAL_FRAME: &'static str = "TOS64-QUAL/1";

/// The campaign's first line: how many windows, how wide, at what rate.
pub open spec fn campaign_rate_line(summary: CampaignSummary) -> Seq<char> {
    QUAL_FRAME@ + field(" campaign windows="@, summary.windows as nat) + field(
        " window_ticks="@,
        summary.window_ticks as nat,
    ) + field(" pmu_per_1000_ticks="@, summary.pmu_per_1000_ticks as nat) + "\n"@
}

/// The campaign's second line: the unaccounted distribution.
pub open spec fn campaign_unaccounted_line(summary: CampaignSummary) -> Seq<char> {
    QUAL_FRAME@ + field(" campaign_unaccounted min="@, summary.unaccounted_min as nat) + field(
        " p50="@,
        summary.unaccounted_p50 as nat,
    ) + field(" p99="@, summary.unaccounted_p99 as nat) + field(
        " p99_9="@,
        summary.unaccounted_p99_9 as nat,
    ) + field(" max="@, summary.unaccounted_max as nat) + "\n"@
}

/// The campaign's third line: the counter-offset channel.
pub open spec fn campaign_offset_line(summary: CampaignSummary) -> Seq<char> {
    QUAL_FRAME@ + field(
        " campaign_offset disagreement_max="@,
        summary.offset_disagreement_max as nat,
    ) + "\n"@
}

/// The positive-control line.
pub open spec fn control_line(
    psci_version: u64,
    idle: CampaignSummary,
    control_unaccounted: u64,
    event_fired: bool,
    seen: bool,
) -> Seq<char> {
    QUAL_FRAME@ + " smc_control psci_version="@ + hex_padded(psci_version as nat, 8) + field(
        " idle_windows="@,
        idle.windows as nat,
    ) + field(" idle_unaccounted_max="@, idle.unaccounted_max as nat) + field(
        " control_unaccounted="@,
        control_unaccounted as nat,
    ) + " event_fired="@ + flag(event_fired) + " seen="@ + flag(seen) + "\n"@
}

/// The refusal line for `arm`.
pub open spec fn refusal_line(arm: Seq<char>, refusal: QualRefusal) -> Seq<char> {
    match refusal {
        QualRefusal::ClockUnstable { rate_p50, rate_min, deviating_windows, windows } => QUAL_FRAME@
            + " "@ + arm + " REFUSED reason="@ + reason(refusal) + field(
            " rate_p50="@,
            rate_p50 as nat,
        ) + field(" rate_min="@, rate_min as nat) + field(
            " deviating_windows="@,
            deviating_windows as nat,
        ) + field(" windows="@, windows as nat) + "\n"@,
        _ => QUAL_FRAME@ + " "@ + arm + " REFUSED reason="@ + reason(refusal) + "\n"@,
    }
}

/// No campaign line outgrows the frame that carries it: whatever the summary
/// holds, each of the three lines, less its newline, is at most 178
/// characters (a 192-byte text frame less its 14-byte header).
pub proof fn lemma_campaign_lines_fit_a_frame(summary: CampaignSummary)
    ensures
        campaign_rate_line(summary).len() <= 178 + 1,
        campaign_unaccounted_line(summary).len() <= 178 + 1,
        campaign_offset_line(summary).len() <= 178 + 1,
{
    reveal_strlit("TOS64-QUAL/1");
    reveal_strlit(" campaign windows=");
    reveal_strlit(" window_ticks=");
    reveal_strlit(" pmu_per_1000_ticks=");
    reveal_strlit(" campaign_unaccounted min=");
    reveal_strlit(" p50=");
    reveal_strlit(" p99=");
    reveal_strlit(" p99_9=");
    reveal_strlit(" max=");
    reveal_strlit(" campaign_offset disagreement_max=");
    reveal_strlit("\n");
    lemma_decimal_len_of_words(summary.window_ticks, summary.windows);
    lemma_decimal_len_of_words(summary.pmu_per_1000_ticks, 0);
    lemma_decimal_len_of_words(summary.unaccounted_min, 0);
    lemma_decimal_len_of_words(summary.unaccounted_p50, 0);
    lemma_decimal_len_of_words(summary.unaccounted_p99, 0);
    lemma_decimal_len_of_words(summary.unaccounted_p99_9, 0);
    lemma_decimal_len_of_words(summary.unaccounted_max, 0);
    lemma_decimal_len_of_words(summary.offset_disagreement_max, 0);
}

/// Writes the campaign's three wire lines, each self-describing, so a
/// capture that loses one keeps whole statements.
pub fn write_campaign_line(sink: &mut String, summary: &CampaignSummary) -> (r: Result<
    (),
    core::fmt::Error,
>)
    ensures
        r is Ok,
        final(sink)@ == old(sink)@ + campaign_rate_line(*summary) + campaign_unaccounted_line(
            *summary,
        ) + campaign_offset_line(*summary),
{
    let ghost start = sink@;
    sink.append(QUAL_FRAME);
    push_field(sink, " campaign windows=", summary.windows as u64);
    push_field(sink, " window_ticks=", summary.window_ticks);
    push_field(sink, " pmu_per_1000_ticks=", summary.pmu_per_1000_ticks);
    sink.append("\n");
    let ghost first = sink@;
    assert(first =~= start + campaign_rate_line(*summary));
    sink.append(QUAL_FRAME);
    push_field(sink, " campaign_unaccounted min=", summary.unaccounted_min);
    push_field(sink, " p50=", summary.unaccounted_p50);
    push_field(sink, " p99=", summary.unaccounted_p99);
    push_field(sink, " p99_9=", summary.unaccounted_p99_9);
    push_field(sink, " max=", summary.unaccounted_max);
    sink.append("\n");
    let ghost second = sink@;
    assert(second =~= first + campaign_unaccounted_line(*summary));
    sink.append(QUAL_FRAME);
    push_field(sink, " campaign_offset disagreement_max=", summary.offset_disagreement_max);
    sink.append("\n");
    assert(sink@ =~= second + campaign_offset_line(*summary));
    Ok(())
}

/// Writes the positive-control arm's wire line: the version word the call
/// returned, the idle arm's count and maximum, the control's excursion,
/// and both halves of the verdict.
pub fn write_control_line(
    sink: &mut String,
    psci_version: u64,
    idle: &CampaignSummary,
    control_unaccounted: u64,
    event_fired: bool,
    seen: bool,
) -> (r: Result<(), core::fmt::Error>)
    ensures
        r is Ok,
        final(sink)@ == old(sink)@ + control_line(
            psci_version,
            *idle,
            control_unaccounted,
            event_fired,
            seen,
        ),
{
    let ghost start = sink@;
    sink.append(QUAL_FRAME);
    sink.append(" smc_control psci_version=");
    push_hex_padded(sink, psci_version, 8);
    push_field(sink, " idle_windows=", idle.windows as u64);
    push_field(sink, " idle_unaccounted_max=", idle.unaccounted_max);
    push_field(sink, " control_unaccounted=", control_unaccounted);
    sink.append(" event_fired=");
    push_flag(sink, event_fired);
    sink.append(" seen=");
    push_flag(sink, seen);
    sink.append("\n");
    assert(sink@ =~= start + control_line(
        psci_version,
        *idle,
        control_unaccounted,
        event_fired,
        seen,
    ));
    Ok(())
}

/// Writes a refusal line for either arm; a clock refusal carries the two
/// rate modes it refused on.
pub fn write_refusal_line(sink: &mut String, arm: &str, refusal: QualRefusal) -> (r: Result<
    (),
    core::fmt::Error,
>)
    ensures
        r is Ok,
        final(sink)@ == old(sink)@ + refusal_line(arm@, refusal),
{
    let ghost start = sink@;
    sink.append(QUAL_FRAME);
    sink.append(" ");
    sink.append(arm);
    sink.append(" REFUSED reason=");
    sink.append(refusal.as_str());
    if let QualRefusal::ClockUnstable { rate_p50, rate_min, deviating_windows, windows } = refusal {
        push_field(sink, " rate_p50=", rate_p50);
        push_field(sink, " rate_min=", rate_min);
        push_field(sink, " deviating_windows=", deviating_windows as u64);
        push_field(sink, " windows=", windows as u64);
    }
    sink.append("\n");
    assert(sink@ =~= start + refusal_line(arm@, refusal));
    Ok(())
}

} // verus!
