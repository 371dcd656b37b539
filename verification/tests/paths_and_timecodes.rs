//! Tests of the path uniquifier and the timecode parser.

use ffgui::ffmpeg_utils::{parse_timecode, unique_path};

fn list(items: &[&str]) -> Vec<String> {
    items.iter().map(|s| s.to_string()).collect()
}

#[test]
fn unique_path_unchanged_when_free() {
    let existing = list(&["other.mp4"]);
    assert_eq!(unique_path("clip.mp4".to_string(), &existing), "clip.mp4");
}

#[test]
fn unique_path_appends_counter() {
    let existing = list(&["clip.mp4"]);
    assert_eq!(unique_path("clip.mp4".to_string(), &existing), "clip(1).mp4");
}

#[test]
fn unique_path_skips_taken_counters() {
    let existing = list(&["clip.mp4", "clip(1).mp4", "clip(2).mp4"]);
    assert_eq!(unique_path("clip.mp4".to_string(), &existing), "clip(3).mp4");
}

#[test]
fn unique_path_strips_prior_suffix() {
    // the suffix-stripping rule: no "clip(2)(1).mp4"
    let existing = list(&["clip.mp4", "clip(2).mp4"]);
    assert_eq!(unique_path("clip(2).mp4".to_string(), &existing), "clip(1).mp4");
}

#[test]
fn unique_path_is_idempotent_on_its_output() {
    let existing = list(&["a/b.txt", "a/b(1).txt", "a/b(2).txt"]);
    let once = unique_path("a/b.txt".to_string(), &existing);
    let twice = unique_path(once.clone(), &existing);
    assert_eq!(once, twice);
    assert!(!existing.contains(&once));
}

#[test]
fn unique_path_keeps_directory_prefix() {
    let existing = list(&["out/take.wav"]);
    assert_eq!(unique_path("out/take.wav".to_string(), &existing), "out/take(1).wav");
}

#[test]
fn unique_path_without_extension() {
    let existing = list(&["notes"]);
    assert_eq!(unique_path("notes".to_string(), &existing), "notes(1)");
}

#[test]
fn unique_path_trims_space_before_suffix() {
    let existing = list(&["name (3).txt"]);
    assert_eq!(unique_path("name (3).txt".to_string(), &existing), "name(1).txt");
}

#[test]
fn unique_path_keeps_non_terminal_suffix() {
    // a parenthesised number that does not close the stem is no
    // disambiguation suffix and stays part of the base
    let existing = list(&["clip(2)x.mp4"]);
    assert_eq!(unique_path("clip(2)x.mp4".to_string(), &existing), "clip(2)x(1).mp4");
}

#[test]
fn unique_path_ignores_non_numeric_parens() {
    let existing = list(&["take(final).mp4"]);
    assert_eq!(unique_path("take(final).mp4".to_string(), &existing), "take(final)(1).mp4");
}

#[test]
fn timecode_ninety_and_a_half_seconds() {
    let ms = parse_timecode("00:01:30.50");
    assert_eq!(ms, 90500);
    assert_eq!(ms as f32 / 1000.0, 90.5);
}

#[test]
fn timecode_wrong_segment_count_is_zero() {
    assert_eq!(parse_timecode("01:30"), 0);
    assert_eq!(parse_timecode("90.5"), 0);
    assert_eq!(parse_timecode("00:00:01:02"), 0);
    assert_eq!(parse_timecode(""), 0);
}

#[test]
fn timecode_malformed_segment_counts_as_zero() {
    // an unreadable segment contributes zero, the others still count
    assert_eq!(parse_timecode("aa:01:30"), 90000);
    assert_eq!(parse_timecode("00:xx:30"), 30000);
}

#[test]
fn timecode_hours_scale() {
    assert_eq!(parse_timecode("02:00:00"), 7_200_000);
    assert_eq!(parse_timecode("01:02:03.004"), 3_723_004);
}
