//! The skip-if-larger policy, per-file planning, and the statistics
//! aggregator.

use imgopt::dispatch::{aggregate, file_report, needs_decode, plan_file, record_file, FileReport};
use imgopt::policy::{
    apply_pass, derived_outcome, measured_outcome, reencode_outcome, savings, should_overwrite,
};
use imgopt::stats::{percent_tenths, remaining_after, sat_add};
use imgopt::{CodecOutcome, CounterSet, ImageKind, QualitySettings};

#[test]
fn savings_is_the_positive_difference() {
    assert_eq!(savings(100, 60), 40);
    assert_eq!(savings(100, 100), 0);
    assert_eq!(savings(100, 120), 0);
    assert_eq!(savings(0, 0), 0);
}

#[test]
fn overwrite_needs_a_smaller_nonempty_result() {
    assert!(should_overwrite(99, 100));
    assert!(!should_overwrite(100, 100));
    assert!(!should_overwrite(101, 100));
    assert!(!should_overwrite(0, 100));
}

#[test]
fn a_pass_never_grows_a_file() {
    assert_eq!(apply_pass(100, 60), 60);
    assert_eq!(apply_pass(100, 100), 100);
    assert_eq!(apply_pass(100, 150), 100);
    assert_eq!(apply_pass(100, 0), 100);
}

#[test]
fn second_pass_with_same_proposal_saves_nothing() {
    // First pass: the 60-byte proposal replaces the 100-byte file.
    let (first, size_after) = reencode_outcome(100, Some(60));
    assert_eq!(first, CodecOutcome::Optimized { bytes_saved: 40 });
    assert_eq!(size_after, 60);
    // Second pass over the optimized file, same proposal: no further
    // savings and no further change.
    let (second, size_final) = reencode_outcome(size_after, Some(60));
    assert_eq!(second, CodecOutcome::NoImprovement);
    assert_eq!(size_final, 60);
}

#[test]
fn failed_encode_leaves_the_file_alone() {
    let (outcome, size_after) = reencode_outcome(100, None);
    assert_eq!(outcome, CodecOutcome::Failed);
    assert_eq!(size_after, 100);
}

#[test]
fn measured_pass_reports_only_shrinkage() {
    assert_eq!(measured_outcome(100, 80), CodecOutcome::Optimized { bytes_saved: 20 });
    assert_eq!(measured_outcome(100, 100), CodecOutcome::NoImprovement);
    assert_eq!(measured_outcome(100, 120), CodecOutcome::NoImprovement);
}

#[test]
fn derived_savings_gate_only_the_reported_number() {
    assert_eq!(derived_outcome(100, Some(70)), CodecOutcome::Optimized { bytes_saved: 30 });
    // The sibling file was still written; only the report is zero.
    assert_eq!(derived_outcome(100, Some(150)), CodecOutcome::NoImprovement);
    assert_eq!(derived_outcome(100, None), CodecOutcome::Failed);
}

#[test]
fn decode_is_needed_only_for_derived_formats() {
    assert!(!needs_decode(false, false));
    assert!(needs_decode(true, false));
    assert!(needs_decode(false, true));
    assert!(needs_decode(true, true));
}

#[test]
fn failed_decode_skips_derived_formats_but_not_the_original() {
    // A corrupt PNG under `--webp`: decode fails, WebP generation is
    // skipped for this file only, the original-format pass still runs.
    let plan = plan_file(ImageKind::Png, true, false, false);
    assert!(!plan.run_webp);
    assert!(!plan.run_avif);
    assert_eq!(plan.codec, ImageKind::Png);
}

#[test]
fn saturating_add_caps_at_the_limit() {
    assert_eq!(sat_add(1, 2), 3);
    assert_eq!(sat_add(u64::MAX, 1), u64::MAX);
    assert_eq!(sat_add(u64::MAX - 1, 1), u64::MAX);
}

#[test]
fn percent_tenths_handles_the_empty_run() {
    assert_eq!(percent_tenths(0, 0), 0);
    assert_eq!(percent_tenths(50, 150), 333);
    assert_eq!(percent_tenths(100, 100), 1000);
    assert_eq!(percent_tenths(0, 100), 0);
}

#[test]
fn remaining_is_total_minus_saved() {
    assert_eq!(remaining_after(150, 50), 100);
    assert_eq!(remaining_after(150, 0), 150);
}

#[test]
fn counters_start_at_zero() {
    let c = CounterSet::new();
    assert_eq!(c.total_input, 0);
    assert_eq!(c.saved_orig, 0);
    assert_eq!(c.saved_webp, 0);
    assert_eq!(c.saved_avif, 0);
    assert_eq!(c.time_jpg, 0);
    assert_eq!(c.time_png, 0);
    assert_eq!(c.time_webp, 0);
    assert_eq!(c.time_avif, 0);
}

#[test]
fn record_routes_original_time_by_codec() {
    let mut c = CounterSet::new();
    let jpg = FileReport {
        input_size: 10,
        codec: ImageKind::Jpeg,
        orig_saved: 2,
        webp_saved: 0,
        avif_saved: 0,
        orig_ms: 5,
        webp_ms: 0,
        avif_ms: 0,
    };
    let png = FileReport {
        input_size: 20,
        codec: ImageKind::Png,
        orig_saved: 3,
        webp_saved: 0,
        avif_saved: 0,
        orig_ms: 7,
        webp_ms: 0,
        avif_ms: 0,
    };
    record_file(&mut c, &jpg);
    record_file(&mut c, &png);
    assert_eq!(c.total_input, 30);
    assert_eq!(c.saved_orig, 5);
    assert_eq!(c.time_jpg, 5);
    assert_eq!(c.time_png, 7);
}

#[test]
fn two_file_run_reports_combined_totals() {
    // A 100KB JPEG and a 50KB PNG in one safe-copy run with default flags:
    // the report totals 150KB of input and a non-negative savings share.
    let jpeg_size: u64 = 100 * 1024;
    let png_size: u64 = 50 * 1024;
    let (jpeg_outcome, jpeg_after) = reencode_outcome(jpeg_size, Some(80 * 1024));
    let png_outcome = measured_outcome(png_size, 45 * 1024);
    assert!(jpeg_after <= jpeg_size);
    let none = CodecOutcome::NoImprovement;
    let reports = vec![
        file_report(
            jpeg_size,
            plan_file(ImageKind::Jpeg, false, false, false),
            jpeg_outcome,
            none,
            none,
            12,
            0,
            0,
        ),
        file_report(
            png_size,
            plan_file(ImageKind::Png, false, false, false),
            png_outcome,
            none,
            none,
            30,
            0,
            0,
        ),
    ];
    let c = aggregate(&reports);
    assert_eq!(c.total_input, 150 * 1024);
    assert_eq!(c.saved_orig, 20 * 1024 + 5 * 1024);
    assert!(c.saved_orig <= c.total_input);
    let tenths = percent_tenths(c.saved_orig, c.total_input);
    assert_eq!(tenths, (c.saved_orig as u128 * 1000 / c.total_input as u128) as u64);
}

#[test]
fn derived_work_leaves_original_category_unchanged() {
    // The same two files, once without and once with WebP generation: the
    // original-format savings and the input total do not move.
    let base = FileReport {
        input_size: 1000,
        codec: ImageKind::Jpeg,
        orig_saved: 250,
        webp_saved: 0,
        avif_saved: 0,
        orig_ms: 4,
        webp_ms: 0,
        avif_ms: 0,
    };
    let mut with_webp = base;
    with_webp.webp_saved = 400;
    with_webp.webp_ms = 9;
    let without = aggregate(&vec![base, base]);
    let with_derived = aggregate(&vec![with_webp, with_webp]);
    assert_eq!(without.saved_orig, with_derived.saved_orig);
    assert_eq!(without.total_input, with_derived.total_input);
    assert_eq!(with_derived.saved_webp, 800);
}

#[test]
fn savings_never_exceed_inputs_across_a_run() {
    let reports: Vec<FileReport> = (0..10)
        .map(|i| FileReport {
            input_size: 100 + i,
            codec: ImageKind::Jpeg,
            orig_saved: 100 + i,
            webp_saved: 50,
            avif_saved: 0,
            orig_ms: 1,
            webp_ms: 1,
            avif_ms: 1,
        })
        .collect();
    let c = aggregate(&reports);
    assert!(c.saved_orig <= c.total_input);
    assert!(c.saved_webp <= c.total_input);
    assert!(c.saved_avif <= c.total_input);
}

#[test]
fn empty_run_aggregates_to_zero() {
    let c = aggregate(&Vec::new());
    assert_eq!(c, CounterSet::new());
    assert_eq!(percent_tenths(c.saved_orig, c.total_input), 0);
}

#[test]
fn quality_settings_accept_only_the_codec_range() {
    let s = QualitySettings::new(80, 65, 80).unwrap();
    assert_eq!(s.jpg_quality, 80);
    assert_eq!(s.png_min, 65);
    assert_eq!(s.png_max, 80);
    assert!(QualitySettings::new(0, 65, 80).is_none());
    assert!(QualitySettings::new(80, 101, 80).is_none());
    assert!(QualitySettings::new(1, 1, 100).is_some());
}

#[test]
fn default_settings_match_the_documented_flags() {
    let s = QualitySettings::default();
    assert_eq!(s.jpg_quality, 80);
    assert_eq!(s.png_min, 65);
    assert_eq!(s.png_max, 80);
}
