//! Tests of the selector enumerations and the number rendering they
//! feed into argument tokens.

use ffgui::enums::{AudioFormat, FrameRateMode, FunctionType, OutputFormat};
use ffgui::numfmt::{kbps_token, milli2_token, milli3_token, u64_to_dec};

#[test]
fn function_type_options() {
    assert!(FunctionType::ExtractAudio.show_audio_options());
    assert!(FunctionType::CompressVideo.show_audio_options());
    assert!(!FunctionType::ConvertToMp4.show_audio_options());

    assert!(FunctionType::CompressVideo.show_video_options());
    assert!(!FunctionType::ExtractAudio.show_video_options());

    assert!(!FunctionType::ExtractAudio.show_output_format());
    assert!(FunctionType::CompressVideo.show_output_format());
    assert!(FunctionType::ConvertToMp4.show_output_format());
}

#[test]
fn function_type_descriptions() {
    assert_eq!(FunctionType::ExtractAudio.description(), "Extract audio from video file.");
    assert_eq!(FunctionType::CompressVideo.description(), "Compress video with advanced options.");
    assert_eq!(
        FunctionType::ConvertToMp4.description(),
        "Convert video to MP4/MKV without re-encoding."
    );
}

#[test]
fn audio_format_tables() {
    assert_eq!(AudioFormat::MP3.ext(), "mp3");
    assert_eq!(AudioFormat::WAV.ext(), "wav");
    assert_eq!(AudioFormat::FLAC.ext(), "flac");
    assert_eq!(AudioFormat::AAC.ext(), "m4a");
    assert_eq!(AudioFormat::OPUS.ext(), "opus");

    assert_eq!(AudioFormat::MP3.codec(), "libmp3lame");
    assert_eq!(AudioFormat::WAV.codec(), "pcm_s16le");
    assert_eq!(AudioFormat::FLAC.codec(), "flac");
    assert_eq!(AudioFormat::AAC.codec(), "aac");
    assert_eq!(AudioFormat::OPUS.codec(), "libopus");

    assert_eq!(AudioFormat::MP3.display_name(), "MP3");
    assert_eq!(AudioFormat::OPUS.display_name(), "Opus");

    let all = AudioFormat::all();
    assert_eq!(all.len(), 5);
    assert_eq!(all[0], AudioFormat::MP3);
    assert_eq!(all[4], AudioFormat::OPUS);
}

#[test]
fn output_format_tables() {
    assert_eq!(OutputFormat::Mp4.ext(), "mp4");
    assert_eq!(OutputFormat::Mkv.ext(), "mkv");
    assert_eq!(OutputFormat::Mp4.display_name(), "MP4");
    assert_eq!(OutputFormat::Mkv.display_name(), "MKV");
    assert_eq!(OutputFormat::all(), [OutputFormat::Mp4, OutputFormat::Mkv]);
}

#[test]
fn enum_defaults() {
    assert_eq!(FunctionType::default(), FunctionType::ExtractAudio);
    assert_eq!(AudioFormat::default(), AudioFormat::MP3);
    assert_eq!(FrameRateMode::default(), FrameRateMode::CFR);
    assert_eq!(OutputFormat::default(), OutputFormat::Mp4);
}

#[test]
fn decimal_rendering() {
    assert_eq!(u64_to_dec(0), "0");
    assert_eq!(u64_to_dec(7), "7");
    assert_eq!(u64_to_dec(1234), "1234");
    assert_eq!(u64_to_dec(18_446_744_073_709_551_615), "18446744073709551615");
}

#[test]
fn rate_tokens() {
    assert_eq!(kbps_token(2000), "2000k");
    assert_eq!(kbps_token(8), "8k");
    assert_eq!(milli3_token(29_970), "29.970");
    assert_eq!(milli3_token(30_000), "30.000");
    assert_eq!(milli3_token(23_976), "23.976");
    assert_eq!(milli3_token(5), "0.005");
    assert_eq!(milli2_token(120_500), "120.50");
    assert_eq!(milli2_token(999), "0.99");
}
