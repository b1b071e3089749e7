use lib::qual_campaign::{
    control_seen, summarize, unaccounted_ticks, write_campaign_line, write_control_line,
    write_refusal_line, CampaignSummary, QualRefusal, WindowSample,
};

/// A sample whose PMU advance accounts for exactly its physical width at
/// `ratio` cycles per 1000 ticks.
fn idle(cntpct: u64, ratio: u64) -> WindowSample {
    WindowSample {
        cntpct_ticks: cntpct,
        cntvct_ticks: cntpct,
        pmccntr_delta: cntpct * ratio / 1000,
    }
}

/// A sample with `stolen` physical ticks the PMU did not witness.
fn excursion(cntpct: u64, ratio: u64, stolen: u64) -> WindowSample {
    WindowSample {
        cntpct_ticks: cntpct,
        cntvct_ticks: cntpct,
        pmccntr_delta: (cntpct - stolen) * ratio / 1000,
    }
}

#[test]
fn an_idle_campaign_summarizes_to_zero_unaccounted() {
    let samples = [idle(540_000, 44_444); 32];
    let mut scratch = [0u64; 32];
    let summary = summarize(&samples, &mut scratch, 540_000).expect("idle windows summarize");
    assert_eq!(summary.windows, 32);
    assert_eq!(summary.window_ticks, 540_000);
    assert_eq!(summary.pmu_per_1000_ticks, 44_444);
    assert_eq!(summary.unaccounted_min, 0);
    assert_eq!(summary.unaccounted_p50, 0);
    assert_eq!(summary.unaccounted_max, 0);
    assert_eq!(summary.offset_disagreement_max, 0);
}

#[test]
fn an_excursion_window_surfaces_in_the_max_and_not_the_median() {
    let mut samples = [idle(540_000, 44_444); 100];
    samples[41] = excursion(540_000, 44_444, 100);
    let mut scratch = [0u64; 100];
    let summary = summarize(&samples, &mut scratch, 540_000).expect("summarizes");
    assert_eq!(summary.unaccounted_p50, 0, "one outlier must not move the median");
    assert!(
        (99..=102).contains(&summary.unaccounted_max),
        "the stolen ticks surface in the max: {}",
        summary.unaccounted_max
    );
}

#[test]
fn the_rate_is_the_median_so_excursions_do_not_recalibrate_the_ruler() {
    let mut samples = [idle(1_000_000, 50_000); 11];
    samples[5] = excursion(1_000_000, 50_000, 400_000);
    let mut scratch = [0u64; 11];
    let summary = summarize(&samples, &mut scratch, 1_000_000).expect("summarizes");
    assert_eq!(summary.pmu_per_1000_ticks, 50_000);
    assert_eq!(summary.unaccounted_min, 0);
    assert_eq!(summary.unaccounted_max, 400_000);
}

#[test]
fn the_offset_channel_is_carried_separately() {
    let mut samples = [idle(540_000, 44_444); 8];
    samples[3].cntvct_ticks = 540_000 - 40;
    let mut scratch = [0u64; 8];
    let summary = summarize(&samples, &mut scratch, 540_000).expect("summarizes");
    assert_eq!(summary.offset_disagreement_max, 40);
    assert_eq!(summary.unaccounted_max, 0, "the PMU channel stays clean");
}

/// A campaign whose clock moved: most windows at a 2400 MHz rate, a fifth
/// at a 1500 MHz one.
fn dvfs_campaign() -> [WindowSample; 200] {
    let mut samples = [idle(540_000, 44_444); 200];
    for slot in samples.iter_mut().take(40) {
        *slot = idle(540_000, 44_444 * 1500 / 2400);
    }
    samples
}

#[test]
fn a_clock_that_moved_mid_campaign_is_a_named_refusal_and_not_a_distribution() {
    let samples = dvfs_campaign();
    let mut scratch = [0u64; 200];
    let refusal = summarize(&samples, &mut scratch, 540_000).expect_err("must refuse");
    let QualRefusal::ClockUnstable { rate_p50, rate_min, deviating_windows, windows } = refusal
    else {
        panic!("wrong refusal: {refusal:?}");
    };
    assert_eq!(rate_p50, 44_444);
    assert_eq!(rate_min, 27_777, "the idle-clock mode, 62.5% of the boost rate");
    assert_eq!(deviating_windows, 40);
    assert_eq!(windows, 200);
    assert_eq!(refusal.as_str(), "clock_unstable");
}

#[test]
fn the_refusal_fires_before_any_distribution_is_built() {
    let samples = dvfs_campaign();
    let mut scratch = [0u64; 200];
    assert!(
        summarize(&samples, &mut scratch, 540_000).is_err(),
        "an unpinned campaign must yield no summary, not a summary a reader must know to \
         distrust"
    );
}

#[test]
fn a_genuine_excursion_tail_still_summarizes_and_is_still_reported() {
    let mut samples = [idle(540_000, 44_444); 6000];
    for index in [11usize, 500, 1234, 4000, 5999] {
        samples[index] = excursion(540_000, 44_444, 300);
    }
    let mut scratch = [0u64; 6000];
    let summary = summarize(&samples, &mut scratch, 540_000)
        .expect("an excursion tail is the measurement, not a refusal");
    assert_eq!(summary.unaccounted_p50, 0);
    assert!(
        (299..=302).contains(&summary.unaccounted_max),
        "the stolen ticks still surface: {}",
        summary.unaccounted_max
    );
}

#[test]
fn one_deviating_window_is_never_a_second_clock_mode() {
    let mut samples = [idle(1_000_000, 50_000); 11];
    samples[5] = excursion(1_000_000, 50_000, 400_000);
    let mut scratch = [0u64; 11];
    assert!(summarize(&samples, &mut scratch, 1_000_000).is_ok());
}

#[test]
fn quantisation_alone_never_trips_the_clock_refusal() {
    let mut samples = [idle(540_000, 44_444); 300];
    for (index, slot) in samples.iter_mut().enumerate() {
        let wobble = (index % 3) as u64; // 44_443 | 44_444 | 44_445
        *slot = idle(540_000, 44_443 + wobble);
    }
    let mut scratch = [0u64; 300];
    assert!(
        summarize(&samples, &mut scratch, 540_000).is_ok(),
        "one unit of ratio quantisation is arithmetic, not DVFS"
    );
}

#[test]
fn the_clock_refusal_line_carries_the_rates_it_refused_on() {
    let mut sink = String::new();
    write_refusal_line(
        &mut sink,
        "campaign",
        QualRefusal::ClockUnstable {
            rate_p50: 44_444,
            rate_min: 27_777,
            deviating_windows: 40,
            windows: 200,
        },
    )
    .expect("writes");
    assert_eq!(
        sink,
        "TOS64-QUAL/1 campaign REFUSED reason=clock_unstable rate_p50=44444 rate_min=27777 \
         deviating_windows=40 windows=200\n"
    );
}

#[test]
fn no_windows_is_a_named_refusal() {
    let mut scratch = [0u64; 0];
    assert_eq!(summarize(&[], &mut scratch, 540_000), Err(QualRefusal::NoWindows));
}

#[test]
fn a_window_that_never_closed_is_a_named_refusal() {
    let mut samples = [idle(540_000, 44_444); 4];
    samples[2].cntpct_ticks = 0; // the spin bound tripped
    let mut scratch = [0u64; 4];
    assert_eq!(summarize(&samples, &mut scratch, 540_000), Err(QualRefusal::WindowNeverClosed));
}

#[test]
fn a_dead_pmu_is_a_named_refusal_not_a_distribution_of_excursions() {
    let samples =
        [WindowSample { cntpct_ticks: 540_000, cntvct_ticks: 540_000, pmccntr_delta: 0 }; 4];
    let mut scratch = [0u64; 4];
    assert_eq!(summarize(&samples, &mut scratch, 540_000), Err(QualRefusal::PmuDead));
}

#[test]
fn a_short_scratch_is_a_named_refusal_not_a_partial_summary() {
    let samples = [idle(540_000, 44_444); 4];
    let mut scratch = [0u64; 3];
    assert_eq!(summarize(&samples, &mut scratch, 540_000), Err(QualRefusal::ScratchTooSmall));
}

#[test]
fn unaccounted_saturates_rather_than_wrapping() {
    let generous = WindowSample {
        cntpct_ticks: 540_000,
        cntvct_ticks: 540_000,
        pmccntr_delta: 24_010_000,
    };
    assert_eq!(unaccounted_ticks(&generous, 44_444), 0);
}

#[test]
fn the_control_is_seen_only_strictly_above_every_idle_window() {
    let samples = [idle(540_000, 44_444); 16];
    let mut scratch = [0u64; 16];
    let idle_summary = summarize(&samples, &mut scratch, 540_000).expect("summarizes");
    assert!(!control_seen(&idle_summary, 0), "a zero control saw nothing");
    assert!(
        !control_seen(&idle_summary, idle_summary.unaccounted_max),
        "equal to the idle max is not above it"
    );
    assert!(control_seen(&idle_summary, idle_summary.unaccounted_max + 1));
}

/// The payload one text frame can carry: a 192-byte frame less its 14-byte
/// Ethernet header.
const WIRE_PAYLOAD_BYTES: usize = 192 - 14;

#[test]
fn no_campaign_line_can_exceed_the_frame_that_carries_it() {
    let widest = CampaignSummary {
        windows: u32::MAX,
        window_ticks: u64::MAX,
        pmu_per_1000_ticks: u64::MAX,
        unaccounted_min: u64::MAX,
        unaccounted_p50: u64::MAX,
        unaccounted_p99: u64::MAX,
        unaccounted_p99_9: u64::MAX,
        unaccounted_max: u64::MAX,
        offset_disagreement_max: u64::MAX,
    };
    let mut sink = String::new();
    write_campaign_line(&mut sink, &widest).expect("write");
    for line in sink.lines() {
        assert!(
            line.len() <= WIRE_PAYLOAD_BYTES,
            "a {} byte line cannot survive a {WIRE_PAYLOAD_BYTES} byte frame, and the \
             transport truncates rather than refusing: {line}",
            line.len()
        );
    }
}

#[test]
fn the_campaign_line_is_exact_bytes() {
    let summary = CampaignSummary {
        windows: 6_000,
        window_ticks: 540_000,
        pmu_per_1000_ticks: 44_444,
        unaccounted_min: 0,
        unaccounted_p50: 0,
        unaccounted_p99: 1,
        unaccounted_p99_9: 3,
        unaccounted_max: 9,
        offset_disagreement_max: 2,
    };
    let mut sink = String::new();
    write_campaign_line(&mut sink, &summary).expect("writes");
    assert_eq!(
        sink,
        "TOS64-QUAL/1 campaign windows=6000 window_ticks=540000 pmu_per_1000_ticks=44444\n\
         TOS64-QUAL/1 campaign_unaccounted min=0 p50=0 p99=1 p99_9=3 max=9\n\
         TOS64-QUAL/1 campaign_offset disagreement_max=2\n"
    );
}

#[test]
fn the_control_line_is_exact_bytes_and_carries_both_halves() {
    let idle_summary = CampaignSummary {
        windows: 16,
        window_ticks: 540_000,
        pmu_per_1000_ticks: 44_444,
        unaccounted_min: 0,
        unaccounted_p50: 0,
        unaccounted_p99: 1,
        unaccounted_p99_9: 1,
        unaccounted_max: 2,
        offset_disagreement_max: 1,
    };
    let mut sink = String::new();
    write_control_line(&mut sink, 0x0001_0001, &idle_summary, 137, true, true).expect("writes");
    assert_eq!(
        sink,
        "TOS64-QUAL/1 smc_control psci_version=0x00010001 idle_windows=16 \
         idle_unaccounted_max=2 control_unaccounted=137 event_fired=true seen=true\n"
    );
}

#[test]
fn the_refusal_line_names_its_reason() {
    let mut sink = String::new();
    write_refusal_line(&mut sink, "campaign", QualRefusal::PmuDead).expect("writes");
    assert_eq!(sink, "TOS64-QUAL/1 campaign REFUSED reason=pmu_dead\n");
}

// A summary's unaccounted figures are ordered min <= p50 <= p99 <= p99.9 <= max.
#[test]
fn a_campaign_summary_is_monotone() {
    let mut samples = vec![idle(1_000_000, 50_000); 2000];
    for stolen_thousands in 1..=20u64 {
        samples[(stolen_thousands * 97) as usize] = excursion(1_000_000, 50_000, stolen_thousands * 1000);
    }
    let mut scratch = vec![0u64; 2000];
    let summary = summarize(&samples, &mut scratch, 1_000_000).expect("a sub-1% tail summarizes");
    assert_eq!(summary.pmu_per_1000_ticks, 50_000);
    assert_eq!(summary.unaccounted_min, 0);
    assert_eq!(summary.unaccounted_p50, 0);
    assert_eq!(summary.unaccounted_p99, 0);
    assert_eq!(summary.unaccounted_p99_9, 18_000);
    assert_eq!(summary.unaccounted_max, 20_000);
    assert!(summary.unaccounted_min <= summary.unaccounted_p50);
    assert!(summary.unaccounted_p50 <= summary.unaccounted_p99);
    assert!(summary.unaccounted_p99 <= summary.unaccounted_p99_9);
    assert!(summary.unaccounted_p99_9 <= summary.unaccounted_max);
}
