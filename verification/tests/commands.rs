//! Tests of the command builder: flag exclusivity, frame-rate modes,
//! and the exact end-to-end argument vector.

use ffgui::config::EncodingConfig;
use ffgui::enums::{AudioFormat, FrameRateMode, FunctionType, OutputFormat};

fn base_config() -> EncodingConfig {
    EncodingConfig::default()
}

fn has(cmd: &[String], flag: &str) -> bool {
    cmd.iter().any(|t| t == flag)
}

#[test]
fn never_both_quality_and_bitrate_flags() {
    let codecs = [
        AudioFormat::MP3,
        AudioFormat::WAV,
        AudioFormat::FLAC,
        AudioFormat::AAC,
        AudioFormat::OPUS,
    ];
    let functions = [FunctionType::ExtractAudio, FunctionType::CompressVideo];
    let existing: Vec<String> = Vec::new();
    for &f in &functions {
        for &af in &codecs {
            for &uaq in &[true, false] {
                let mut cfg = base_config();
                cfg.input_path = String::from("in.mov");
                cfg.output_path = String::from("out.bin");
                cfg.selected_function = f;
                cfg.audio_format = af;
                cfg.use_audio_quality = uaq;
                let cmd = cfg.build_command(&existing);
                assert!(
                    !(has(&cmd, "-q:a") && has(&cmd, "-b:a")),
                    "both audio flags for {:?} {:?} uaq={}",
                    f,
                    af,
                    uaq
                );
            }
        }
    }
}

#[test]
fn vfr_has_sync_flag_and_no_numeric_rate() {
    let existing: Vec<String> = Vec::new();
    let mut cfg = base_config();
    cfg.input_path = String::from("in.mov");
    cfg.output_path = String::from("out.mp4");
    cfg.selected_function = FunctionType::CompressVideo;
    cfg.framerate_mode = FrameRateMode::VFR;
    cfg.use_crf = false;
    let cmd = cfg.build_command(&existing);
    assert!(!has(&cmd, "-r"));
    assert!(has(&cmd, "-vsync"));
    let i = cmd.iter().position(|t| t == "-vsync").unwrap();
    assert_eq!(cmd[i + 1], "vfr");
}

#[test]
fn crf_and_bitrate_flags_are_exclusive() {
    let existing: Vec<String> = Vec::new();
    let mut cfg = base_config();
    cfg.input_path = String::from("in.mov");
    cfg.output_path = String::from("out.mp4");
    cfg.selected_function = FunctionType::CompressVideo;
    cfg.use_crf = true;
    cfg.framerate_mode = FrameRateMode::CFR;
    let cmd = cfg.build_command(&existing);
    assert!(has(&cmd, "-crf"));
    assert!(!has(&cmd, "-b:v"));

    cfg.use_crf = false;
    let cmd = cfg.build_command(&existing);
    assert!(!has(&cmd, "-crf"));
    assert!(has(&cmd, "-b:v"));

    // variable frame rate forces the bitrate flag even with CRF mode on
    cfg.use_crf = true;
    cfg.framerate_mode = FrameRateMode::VFR;
    let cmd = cfg.build_command(&existing);
    assert!(!has(&cmd, "-crf"));
    assert!(has(&cmd, "-b:v"));
}

#[test]
fn end_to_end_mp3_vbr_extract() {
    let existing: Vec<String> = Vec::new();
    let mut cfg = base_config();
    cfg.input_path = String::from("input.mov");
    cfg.selected_function = FunctionType::ExtractAudio;
    cfg.audio_format = AudioFormat::MP3;
    cfg.use_audio_quality = true;
    cfg.audio_quality = 4;
    assert_eq!(cfg.default_output(&existing), "input-Audio.mp3");
    let cmd = cfg.build_command(&existing);
    let expect = [
        "-i",
        "input.mov",
        "-vn",
        "-sn",
        "-map",
        "0:a",
        "-c:a",
        "libmp3lame",
        "-q:a",
        "4",
        "-y",
        "input-Audio.mp3",
    ];
    let got: Vec<&str> = cmd.iter().map(|s| s.as_str()).collect();
    assert_eq!(got, expect);
}

#[test]
fn mp3_cbr_uses_bitrate_with_unit_suffix() {
    let existing: Vec<String> = Vec::new();
    let mut cfg = base_config();
    cfg.input_path = String::from("a.mkv");
    cfg.output_path = String::from("a.mp3");
    cfg.selected_function = FunctionType::ExtractAudio;
    cfg.audio_format = AudioFormat::MP3;
    cfg.use_audio_quality = false;
    cfg.audio_bitrate = 192;
    let cmd = cfg.build_command(&existing);
    let i = cmd.iter().position(|t| t == "-b:a").unwrap();
    assert_eq!(cmd[i + 1], "192k");
    assert!(!has(&cmd, "-q:a"));
}

#[test]
fn wav_uses_pcm_and_fixed_sample_rate() {
    let existing: Vec<String> = Vec::new();
    let mut cfg = base_config();
    cfg.input_path = String::from("a.mkv");
    cfg.output_path = String::from("a.wav");
    cfg.selected_function = FunctionType::ExtractAudio;
    cfg.audio_format = AudioFormat::WAV;
    let cmd = cfg.build_command(&existing);
    let i = cmd.iter().position(|t| t == "-c:a").unwrap();
    assert_eq!(cmd[i + 1], "pcm_s16le");
    let j = cmd.iter().position(|t| t == "-ar").unwrap();
    assert_eq!(cmd[j + 1], "44100");
}

#[test]
fn flac_asymmetry_between_operations() {
    // FLAC gets the experimental-feature flag only in compress-video
    let existing: Vec<String> = Vec::new();
    let mut cfg = base_config();
    cfg.input_path = String::from("a.mkv");
    cfg.output_path = String::from("out.bin");
    cfg.audio_format = AudioFormat::FLAC;
    cfg.selected_function = FunctionType::ExtractAudio;
    let cmd = cfg.build_command(&existing);
    assert!(!has(&cmd, "-strict"));
    cfg.selected_function = FunctionType::CompressVideo;
    let cmd = cfg.build_command(&existing);
    assert!(has(&cmd, "-strict"));
}

#[test]
fn cfr_frame_rate_has_three_decimals() {
    let existing: Vec<String> = Vec::new();
    let mut cfg = base_config();
    cfg.input_path = String::from("a.mkv");
    cfg.output_path = String::from("out.mp4");
    cfg.selected_function = FunctionType::CompressVideo;
    cfg.framerate_mode = FrameRateMode::CFR;
    cfg.frame_rate_millifps = 29970;
    let cmd = cfg.build_command(&existing);
    let i = cmd.iter().position(|t| t == "-r").unwrap();
    assert_eq!(cmd[i + 1], "29.970");

    cfg.frame_rate_millifps = 30000;
    let cmd = cfg.build_command(&existing);
    let i = cmd.iter().position(|t| t == "-r").unwrap();
    assert_eq!(cmd[i + 1], "30.000");
}

#[test]
fn remux_stream_copies_everything() {
    let existing: Vec<String> = Vec::new();
    let mut cfg = base_config();
    cfg.input_path = String::from("a.avi");
    cfg.output_path = String::from("a.mp4");
    cfg.selected_function = FunctionType::ConvertToMp4;
    let cmd = cfg.build_command(&existing);
    let got: Vec<&str> = cmd.iter().map(|s| s.as_str()).collect();
    assert_eq!(got, ["-i", "a.avi", "-map", "0", "-c", "copy", "-y", "a.mp4"]);
}

#[test]
fn update_command_fixes_extension_and_preview() {
    let existing: Vec<String> = Vec::new();
    let mut cfg = base_config();
    cfg.input_path = String::from("clip.mov");
    cfg.output_path = String::from("clip.avi");
    cfg.selected_function = FunctionType::ExtractAudio;
    cfg.audio_format = AudioFormat::MP3;
    cfg.update_command(&existing);
    assert_eq!(cfg.output_path, "clip.mp3");
    assert!(cfg.last_command.contains("clip.mp3"));
    assert!(cfg.last_command.starts_with("-i clip.mov"));
}

#[test]
fn default_output_per_operation() {
    let existing: Vec<String> = Vec::new();
    let mut cfg = base_config();
    cfg.input_path = String::from("dir/movie.mkv");
    cfg.selected_function = FunctionType::CompressVideo;
    cfg.output_format = OutputFormat::Mp4;
    assert_eq!(cfg.default_output(&existing), "dir/movie-Compressed.mp4");
    cfg.selected_function = FunctionType::ConvertToMp4;
    cfg.output_format = OutputFormat::Mkv;
    assert_eq!(cfg.default_output(&existing), "dir/movie-Converted.mkv");
    cfg.input_path = String::new();
    assert_eq!(cfg.default_output(&existing), "");
}

#[test]
fn default_config_matches_documented_start_state() {
    let cfg = EncodingConfig::default();
    assert_eq!(cfg.crf, 28);
    assert_eq!(cfg.video_bitrate, 2000);
    assert_eq!(cfg.encoding_preset, "medium");
    assert_eq!(cfg.frame_rate_millifps, 30000);
    assert_eq!(cfg.audio_bitrate, 192);
    assert_eq!(cfg.audio_quality, 4);
    assert!(cfg.use_crf);
    assert!(cfg.use_audio_quality);
    assert_eq!(cfg.duration_ms, 1000);
}

#[test]
fn update_command_derives_default_when_output_empty() {
    let existing: Vec<String> = Vec::new();
    let mut cfg = base_config();
    cfg.input_path = String::from("song.flac");
    cfg.selected_function = FunctionType::ExtractAudio;
    cfg.audio_format = AudioFormat::OPUS;
    cfg.update_command(&existing);
    assert_eq!(cfg.output_path, "song-Audio.opus");
    assert!(cfg.last_command.ends_with("-y song-Audio.opus"));
}

#[test]
fn resolve_output_routes_collisions_through_uniquifier() {
    let existing = vec!["take.mp3".to_string()];
    let mut cfg = base_config();
    cfg.input_path = String::from("take.mov");
    cfg.output_path = String::from("take.mp3");
    cfg.resolve_output(&existing);
    assert_eq!(cfg.output_path, "take(1).mp3");
}

#[test]
fn default_output_avoids_existing_file() {
    let existing = vec!["input-Audio.mp3".to_string()];
    let mut cfg = base_config();
    cfg.input_path = String::from("input.mov");
    cfg.selected_function = FunctionType::ExtractAudio;
    cfg.audio_format = AudioFormat::MP3;
    assert_eq!(cfg.default_output(&existing), "input-Audio(1).mp3");
}

#[test]
fn opus_compress_carries_compression_level() {
    let existing: Vec<String> = Vec::new();
    let mut cfg = base_config();
    cfg.input_path = String::from("a.mkv");
    cfg.output_path = String::from("out.mkv");
    cfg.selected_function = FunctionType::CompressVideo;
    cfg.audio_format = AudioFormat::OPUS;
    cfg.audio_quality = 7;
    cfg.audio_bitrate = 128;
    let cmd = cfg.build_command(&existing);
    let i = cmd.iter().position(|t| t == "-compression_level").unwrap();
    assert_eq!(cmd[i + 1], "7");
    let j = cmd.iter().position(|t| t == "-b:a").unwrap();
    assert_eq!(cmd[j + 1], "128k");
}
