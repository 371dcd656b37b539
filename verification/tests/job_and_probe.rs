//! Tests of the job state machine and the probe parsers.

use ffgui::config::EncodingConfig;
use ffgui::job::{CancelOutcome, JobState, StartOutcome, progress_permille_of};
use ffgui::probe::{apply_probe, parse_duration_output, parse_fps_output};

#[test]
fn progress_is_clamped_above_duration() {
    // a timecode past the probed duration still reads as complete, not more
    assert_eq!(progress_permille_of(120_000, 60_000), 1000);
    assert_eq!(progress_permille_of(30_000, 60_000), 500);
    assert_eq!(progress_permille_of(0, 60_000), 0);
}

#[test]
fn on_line_parses_time_marker() {
    let mut st = JobState::default();
    st.on_line("frame=  100 fps=25 time=00:00:30.00 bitrate=1k", 60_000);
    assert_eq!(st.get_progress(), 500);
    assert!(st.get_log().contains("time=00:00:30.00"));
}

#[test]
fn on_line_clamps_excessive_time() {
    let mut st = JobState::default();
    st.on_line("time=99:00:00.00 speed=1x", 60_000);
    assert_eq!(st.get_progress(), 1000);
}

#[test]
fn on_line_progress_never_falls() {
    let mut st = JobState::default();
    st.on_line("time=00:00:30.00", 60_000);
    assert_eq!(st.get_progress(), 500);
    st.on_line("time=00:00:06.00", 60_000);
    assert_eq!(st.get_progress(), 500);
    st.on_line("time=00:00:45.00", 60_000);
    assert_eq!(st.get_progress(), 750);
}

#[test]
fn on_line_without_marker_only_logs() {
    let mut st = JobState::default();
    st.on_line("configuration: --enable-gpl", 60_000);
    assert_eq!(st.get_progress(), 0);
    assert_eq!(st.get_log(), "configuration: --enable-gpl\n");
}

#[test]
fn cancel_without_process_is_logged_noop() {
    let mut st = JobState::default();
    let r = st.cancel();
    assert_eq!(r, CancelOutcome::NoOp);
    assert!(!st.is_running());
    assert_eq!(st.get_progress(), 0);
    assert!(st.get_log().contains("No active process to stop."));
}

#[test]
fn cancel_with_process_requests_kill() {
    let mut st = JobState::default();
    st.on_spawned();
    st.running = true;
    let r = st.cancel();
    assert_eq!(r, CancelOutcome::Kill);
    assert!(!st.is_running());
    st.on_kill_result(true, "");
    assert_eq!(st.get_progress(), 0);
    assert!(st.get_log().contains("Process terminated."));
}

#[test]
fn kill_failure_is_logged_but_job_stays_stopped() {
    let mut st = JobState::default();
    st.on_spawned();
    st.running = true;
    let r = st.cancel();
    assert_eq!(r, CancelOutcome::Kill);
    st.on_kill_result(false, "permission denied");
    assert!(!st.is_running());
    assert!(st.get_log().contains("Error killing process: permission denied"));
}

#[test]
fn start_while_running_is_rejected_and_state_kept() {
    let mut st = JobState::default();
    st.running = true;
    st.progress_permille = 400;
    st.on_spawned();
    let cfg = EncodingConfig::default();
    let ok = st.start_validate(&cfg, true);
    assert!(!ok);
    assert!(st.is_running());
    assert_eq!(st.get_progress(), 400);
    assert!(st.child_present);
    assert!(st.get_log().contains("A process is already running."));
}

#[test]
fn start_rejects_missing_input() {
    let mut st = JobState::default();
    let cfg = EncodingConfig::default();
    assert!(!st.start_validate(&cfg, false));
    assert!(st.get_log().contains("Error: No input file selected."));

    let mut st = JobState::default();
    let mut cfg = EncodingConfig::default();
    cfg.input_path = String::from("gone.mov");
    assert!(!st.start_validate(&cfg, false));
    assert!(st.get_log().contains("Error: Input file does not exist: gone.mov"));
}

#[test]
fn launch_rejects_missing_output_directory() {
    let mut st = JobState::default();
    let existing: Vec<String> = Vec::new();
    let mut cfg = EncodingConfig::default();
    cfg.input_path = String::from("in.mov");
    cfg.output_path = String::from("nodir/out.mp3");
    let r = st.launch(&cfg, false, &existing);
    assert!(matches!(r, StartOutcome::Rejected));
    assert!(!st.is_running());
    assert!(st.get_log().contains("Error: Output directory does not exist: nodir/"));
}

#[test]
fn launch_resets_state_and_freezes_arguments() {
    let mut st = JobState::default();
    st.log_line("old noise");
    let existing: Vec<String> = Vec::new();
    let mut cfg = EncodingConfig::default();
    cfg.input_path = String::from("in.mov");
    cfg.resolve_output(&existing);
    assert_eq!(cfg.output_path, "in-Audio.mp3");
    let r = st.launch(&cfg, true, &existing);
    match r {
        StartOutcome::Spawn(args) => {
            assert_eq!(args, cfg.build_command(&existing));
            assert_eq!(args.last().unwrap(), "in-Audio.mp3");
        },
        StartOutcome::Rejected => panic!("launch refused"),
    }
    assert!(st.is_running());
    assert_eq!(st.get_progress(), 0);
    assert!(!st.child_present);
    assert_eq!(st.get_log(), "Outputting to: in-Audio.mp3\n");
}

#[test]
fn spawn_failure_is_caught_and_logged() {
    let mut st = JobState::default();
    st.running = true;
    st.on_spawn_error("No such file or directory");
    assert!(!st.is_running());
    assert!(st.get_log().contains("failed to launch ffmpeg: No such file or directory"));
}

#[test]
fn exit_forces_progress_complete() {
    let mut st = JobState::default();
    st.running = true;
    st.on_spawned();
    st.on_exit(true, "exit status: 0", "out.mp3");
    assert!(!st.is_running());
    assert!(!st.child_present);
    assert_eq!(st.get_progress(), 1000);
    assert!(st.get_log().contains("FFmpeg finished with status: exit status: 0"));
    assert!(st.get_log().contains("Output successfully saved to out.mp3"));

    let mut st = JobState::default();
    st.on_exit(false, "exit status: 1", "out.mp3");
    assert_eq!(st.get_progress(), 1000);
    assert!(st.get_log().contains("FFmpeg command failed."));
}

#[test]
fn duration_parse_and_fallbacks() {
    assert_eq!(parse_duration_output("90.5\n"), Some(90_500));
    assert_eq!(parse_duration_output("  3600\n"), Some(3_600_000));
    // clamped up to one second
    assert_eq!(parse_duration_output("0.2"), Some(1000));
    assert_eq!(parse_duration_output("N/A\n"), None);
    assert_eq!(parse_duration_output(""), None);
}

#[test]
fn fps_parse_rational_and_plain() {
    assert_eq!(parse_fps_output("30000/1001\n"), Some(29_970));
    assert_eq!(parse_fps_output("25/1"), Some(25_000));
    assert_eq!(parse_fps_output("29.97"), Some(29_970));
    assert_eq!(parse_fps_output("60"), Some(60_000));
    assert_eq!(parse_fps_output("30/0"), None);
    assert_eq!(parse_fps_output("a/b"), None);
    assert_eq!(parse_fps_output("1/2/3"), None);
    assert_eq!(parse_fps_output("garbage"), None);
}

#[test]
fn probe_failure_leaves_progress_computable() {
    // duration probe failure: the one-second fallback, so progress
    // division is well-defined
    let mut cfg = EncodingConfig::default();
    cfg.duration_ms = 77_777;
    let mut log = String::new();
    apply_probe(&mut cfg, &mut log, true, None, None);
    assert_eq!(cfg.duration_ms, 1000);
    assert_eq!(cfg.original_fps_millifps, 30_000);
    assert_eq!(cfg.frame_rate_millifps, 30_000);
    assert_eq!(progress_permille_of(500, cfg.duration_ms), 500);
    assert!(log.contains("Could not determine file duration, using default."));
    assert!(log.contains("Could not determine original frame rate, using 30 fps."));
}

#[test]
fn probe_success_seeds_rates() {
    let mut cfg = EncodingConfig::default();
    let mut log = String::new();
    apply_probe(
        &mut cfg,
        &mut log,
        true,
        Some("120.5\n".to_string()),
        Some("120000/1001\n".to_string()),
    );
    assert_eq!(cfg.duration_ms, 120_500);
    assert_eq!(cfg.original_fps_millifps, 119_880);
    // the working rate is seeded capped at sixty
    assert_eq!(cfg.frame_rate_millifps, 60_000);
    assert!(log.contains("File duration: 120.50 seconds"));
    assert!(log.contains("Original frame rate: 119.880 fps"));
}

#[test]
fn probe_skipped_for_missing_input() {
    let mut cfg = EncodingConfig::default();
    let mut log = String::new();
    apply_probe(&mut cfg, &mut log, false, None, None);
    assert_eq!(cfg.duration_ms, 1000);
    assert_eq!(cfg.original_fps_millifps, 30_000);
    assert_eq!(log, "");
}

#[test]
fn job_state_starts_idle() {
    let st = JobState::default();
    assert!(!st.is_running());
    assert_eq!(st.get_progress(), 0);
    assert_eq!(st.get_log(), "");
    assert!(!st.child_present);
}

#[test]
fn log_line_appends_with_newline() {
    let mut st = JobState::default();
    st.log_line("Executing: ffmpeg -i a.mov");
    st.log_line("second");
    assert_eq!(st.get_log(), "Executing: ffmpeg -i a.mov\nsecond\n");
}

#[test]
fn probe_keeps_duration_on_unreadable_text() {
    let mut cfg = EncodingConfig::default();
    cfg.duration_ms = 5000;
    let mut log = String::new();
    apply_probe(&mut cfg, &mut log, true, Some("N/A\n".to_string()), Some("60".to_string()));
    assert_eq!(cfg.duration_ms, 5000);
    assert_eq!(cfg.original_fps_millifps, 60_000);
    assert_eq!(cfg.frame_rate_millifps, 60_000);
}
