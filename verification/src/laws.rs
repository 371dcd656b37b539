//! The rules the built command is proved to obey: the mutually
//! exclusive quality flags, and the frame-rate flags.

use vstd::prelude::*;
use crate::enums::{AudioFormat, FunctionType, FrameRateMode};
use crate::numfmt::{spec_dec, spec_kbps, spec_milli3, lemma_spec_dec_digits, is_digit_char};
use crate::strutil::lemma_contains_add;
use crate::config::{
    audio_tokens_extract, audio_tokens_compress, video_quality_tokens, framerate_tokens,
    spec_build, EncodingConfig,
};

verus! {

/// A string that cannot be mistaken for a flag token: it does not
/// start with a dash.  Paths and preset names satisfy this.
pub open spec fn flagless(s: Seq<char>) -> bool {
    s.len() == 0 || s[0] != '-'
}

/// The character content of every literal token, so that distinct
/// tokens can be told apart.
proof fn lemma_lit_facts()
    ensures
        "-i"@.len() == 2,
        "-i"@[0] == '-',
        "-i"@[1] == 'i',
        "-vn"@.len() == 3,
        "-vn"@[0] == '-',
        "-vn"@[1] == 'v',
        "-vn"@[2] == 'n',
        "-sn"@.len() == 3,
        "-sn"@[0] == '-',
        "-sn"@[1] == 's',
        "-sn"@[2] == 'n',
        "-map"@.len() == 4,
        "-map"@[0] == '-',
        "-map"@[1] == 'm',
        "-map"@[2] == 'a',
        "-map"@[3] == 'p',
        "0:a"@.len() == 3,
        "0:a"@[0] == '0',
        "0:a"@[1] == ':',
        "0:a"@[2] == 'a',
        "-y"@.len() == 2,
        "-y"@[0] == '-',
        "-y"@[1] == 'y',
        "-c:a"@.len() == 4,
        "-c:a"@[0] == '-',
        "-c:a"@[1] == 'c',
        "-c:a"@[2] == ':',
        "-c:a"@[3] == 'a',
        "libmp3lame"@.len() == 10,
        "libmp3lame"@[0] == 'l',
        "libmp3lame"@[1] == 'i',
        "libmp3lame"@[2] == 'b',
        "libmp3lame"@[3] == 'm',
        "libopus"@.len() == 7,
        "libopus"@[0] == 'l',
        "libopus"@[1] == 'i',
        "libopus"@[2] == 'b',
        "libopus"@[3] == 'o',
        "aac"@.len() == 3,
        "aac"@[0] == 'a',
        "aac"@[1] == 'a',
        "aac"@[2] == 'c',
        "flac"@.len() == 4,
        "flac"@[0] == 'f',
        "flac"@[1] == 'l',
        "flac"@[2] == 'a',
        "flac"@[3] == 'c',
        "pcm_s16le"@.len() == 9,
        "pcm_s16le"@[0] == 'p',
        "pcm_s16le"@[1] == 'c',
        "pcm_s16le"@[2] == 'm',
        "pcm_s16le"@[3] == '_',
        "-strict"@.len() == 7,
        "-strict"@[0] == '-',
        "-strict"@[1] == 's',
        "-strict"@[2] == 't',
        "-strict"@[3] == 'r',
        "experimental"@.len() == 12,
        "experimental"@[0] == 'e',
        "experimental"@[1] == 'x',
        "experimental"@[2] == 'p',
        "experimental"@[3] == 'e',
        "-compression_level"@.len() == 18,
        "-compression_level"@[0] == '-',
        "-compression_level"@[1] == 'c',
        "-compression_level"@[2] == 'o',
        "-compression_level"@[3] == 'm',
        "-ar"@.len() == 3,
        "-ar"@[0] == '-',
        "-ar"@[1] == 'a',
        "-ar"@[2] == 'r',
        "44100"@.len() == 5,
        "44100"@[0] == '4',
        "44100"@[1] == '4',
        "44100"@[2] == '1',
        "44100"@[3] == '0',
        "0"@.len() == 1,
        "0"@[0] == '0',
        "-c:v"@.len() == 4,
        "-c:v"@[0] == '-',
        "-c:v"@[1] == 'c',
        "-c:v"@[2] == ':',
        "-c:v"@[3] == 'v',
        "libx264"@.len() == 7,
        "libx264"@[0] == 'l',
        "libx264"@[1] == 'i',
        "libx264"@[2] == 'b',
        "libx264"@[3] == 'x',
        "-preset"@.len() == 7,
        "-preset"@[0] == '-',
        "-preset"@[1] == 'p',
        "-preset"@[2] == 'r',
        "-preset"@[3] == 'e',
        "-c"@.len() == 2,
        "-c"@[0] == '-',
        "-c"@[1] == 'c',
        "copy"@.len() == 4,
        "copy"@[0] == 'c',
        "copy"@[1] == 'o',
        "copy"@[2] == 'p',
        "copy"@[3] == 'y',
        "-c:s"@.len() == 4,
        "-c:s"@[0] == '-',
        "-c:s"@[1] == 'c',
        "-c:s"@[2] == ':',
        "-c:s"@[3] == 's',
        "vfr"@.len() == 3,
        "vfr"@[0] == 'v',
        "vfr"@[1] == 'f',
        "vfr"@[2] == 'r',
        "-q:a"@.len() == 4,
        "-q:a"@[0] == '-',
        "-q:a"@[1] == 'q',
        "-q:a"@[2] == ':',
        "-q:a"@[3] == 'a',
        "-b:a"@.len() == 4,
        "-b:a"@[0] == '-',
        "-b:a"@[1] == 'b',
        "-b:a"@[2] == ':',
        "-b:a"@[3] == 'a',
        "-crf"@.len() == 4,
        "-crf"@[0] == '-',
        "-crf"@[1] == 'c',
        "-crf"@[2] == 'r',
        "-crf"@[3] == 'f',
        "-b:v"@.len() == 4,
        "-b:v"@[0] == '-',
        "-b:v"@[1] == 'b',
        "-b:v"@[2] == ':',
        "-b:v"@[3] == 'v',
        "-r"@.len() == 2,
        "-r"@[0] == '-',
        "-r"@[1] == 'r',
        "-vsync"@.len() == 6,
        "-vsync"@[0] == '-',
        "-vsync"@[1] == 'v',
        "-vsync"@[2] == 's',
        "-vsync"@[3] == 'y',
{
    reveal_strlit("-i");
    reveal_strlit("-vn");
    reveal_strlit("-sn");
    reveal_strlit("-map");
    reveal_strlit("0:a");
    reveal_strlit("-y");
    reveal_strlit("-c:a");
    reveal_strlit("libmp3lame");
    reveal_strlit("libopus");
    reveal_strlit("aac");
    reveal_strlit("flac");
    reveal_strlit("pcm_s16le");
    reveal_strlit("-strict");
    reveal_strlit("experimental");
    reveal_strlit("-compression_level");
    reveal_strlit("-ar");
    reveal_strlit("44100");
    reveal_strlit("0");
    reveal_strlit("-c:v");
    reveal_strlit("libx264");
    reveal_strlit("-preset");
    reveal_strlit("-c");
    reveal_strlit("copy");
    reveal_strlit("-c:s");
    reveal_strlit("vfr");
    reveal_strlit("-q:a");
    reveal_strlit("-b:a");
    reveal_strlit("-crf");
    reveal_strlit("-b:v");
    reveal_strlit("-r");
    reveal_strlit("-vsync");
}

proof fn lemma_kbps_first(ab: nat)
    ensures
        spec_kbps(ab).len() >= 2,
        is_digit_char(spec_kbps(ab)[0]),
{
    reveal_strlit("k");
    lemma_spec_dec_digits(ab);
    assert(spec_kbps(ab)[0] == spec_dec(ab)[0]);
}

proof fn lemma_milli3_first(m: nat)
    ensures
        spec_milli3(m).len() >= 5,
        is_digit_char(spec_milli3(m)[0]),
{
    reveal_strlit(".");
    lemma_spec_dec_digits(m / 1000);
    crate::numfmt::lemma_pad3_len(m % 1000);
    assert(spec_milli3(m)[0] == spec_dec(m / 1000)[0]);
}

/// Which of the audio flags the extract-audio block holds, and that it
/// holds none of the video flags.
proof fn lemma_audio_extract_flags(af: AudioFormat, uaq: bool, q: nat, ab: nat)
    ensures
        audio_tokens_extract(af, uaq, q, ab).contains("-q:a"@) <==> (af == AudioFormat::MP3
            && uaq),
        audio_tokens_extract(af, uaq, q, ab).contains("-b:a"@) <==> ((af == AudioFormat::MP3
            && !uaq) || af == AudioFormat::OPUS || af == AudioFormat::AAC),
        !audio_tokens_extract(af, uaq, q, ab).contains("-crf"@),
        !audio_tokens_extract(af, uaq, q, ab).contains("-b:v"@),
        !audio_tokens_extract(af, uaq, q, ab).contains("-r"@),
        !audio_tokens_extract(af, uaq, q, ab).contains("-vsync"@),
{
    lemma_lit_facts();
    lemma_spec_dec_digits(q);
    lemma_kbps_first(ab);
    let ts = audio_tokens_extract(af, uaq, q, ab);
    match af {
        AudioFormat::MP3 => {
            if uaq {
                assert(ts =~= seq!["-c:a"@, "libmp3lame"@, "-q:a"@, spec_dec(q)]);
                assert(ts.contains("-q:a"@)) by {
                    assert(ts[2] == "-q:a"@);
                }
            } else {
                assert(ts =~= seq!["-c:a"@, "libmp3lame"@, "-b:a"@, spec_kbps(ab)]);
                assert(ts.contains("-b:a"@)) by {
                    assert(ts[2] == "-b:a"@);
                }
            }
        },
        AudioFormat::OPUS => {
            assert(ts =~= seq![
                "-c:a"@,
                "libopus"@,
                "-b:a"@,
                spec_kbps(ab),
                "-strict"@,
                "experimental"@,
            ]);
            assert(ts.contains("-b:a"@)) by {
                assert(ts[2] == "-b:a"@);
            }
        },
        AudioFormat::AAC => {
            assert(ts =~= seq![
                "-c:a"@,
                "aac"@,
                "-b:a"@,
                spec_kbps(ab),
                "-strict"@,
                "experimental"@,
            ]);
            assert(ts.contains("-b:a"@)) by {
                assert(ts[2] == "-b:a"@);
            }
        },
        AudioFormat::FLAC => {
            assert(ts =~= seq!["-c:a"@, "flac"@, "-compression_level"@, spec_dec(q)]);
        },
        AudioFormat::WAV => {
            assert(ts =~= seq!["-c:a"@, "pcm_s16le"@, "-ar"@, "44100"@]);
        },
    }
}

/// The same for the compress-video audio block.
proof fn lemma_audio_compress_flags(af: AudioFormat, uaq: bool, q: nat, ab: nat)
    ensures
        audio_tokens_compress(af, uaq, q, ab).contains("-q:a"@) <==> (af == AudioFormat::MP3
            && uaq),
        audio_tokens_compress(af, uaq, q, ab).contains("-b:a"@) <==> ((af == AudioFormat::MP3
            && !uaq) || af == AudioFormat::OPUS || af == AudioFormat::AAC),
        !audio_tokens_compress(af, uaq, q, ab).contains("-crf"@),
        !audio_tokens_compress(af, uaq, q, ab).contains("-b:v"@),
        !audio_tokens_compress(af, uaq, q, ab).contains("-r"@),
        !audio_tokens_compress(af, uaq, q, ab).contains("-vsync"@),
{
    lemma_lit_facts();
    lemma_spec_dec_digits(q);
    lemma_kbps_first(ab);
    let ts = audio_tokens_compress(af, uaq, q, ab);
    match af {
        AudioFormat::MP3 => {
            if uaq {
                assert(ts =~= seq!["libmp3lame"@, "-q:a"@, spec_dec(q)]);
                assert(ts.contains("-q:a"@)) by {
                    assert(ts[1] == "-q:a"@);
                }
            } else {
                assert(ts =~= seq!["libmp3lame"@, "-b:a"@, spec_kbps(ab)]);
                assert(ts.contains("-b:a"@)) by {
                    assert(ts[1] == "-b:a"@);
                }
            }
        },
        AudioFormat::OPUS => {
            assert(ts =~= seq![
                "libopus"@,
                "-b:a"@,
                spec_kbps(ab),
                "-compression_level"@,
                spec_dec(q),
                "-strict"@,
                "experimental"@,
            ]);
            assert(ts.contains("-b:a"@)) by {
                assert(ts[1] == "-b:a"@);
            }
        },
        AudioFormat::AAC => {
            assert(ts =~= seq![
                "aac"@,
                "-b:a"@,
                spec_kbps(ab),
                "-strict"@,
                "experimental"@,
            ]);
            assert(ts.contains("-b:a"@)) by {
                assert(ts[1] == "-b:a"@);
            }
        },
        AudioFormat::FLAC => {
            assert(ts =~= seq![
                "flac"@,
                "-compression_level"@,
                spec_dec(q),
                "-strict"@,
                "experimental"@,
            ]);
        },
        AudioFormat::WAV => {
            assert(ts =~= seq!["pcm_s16le"@, "-ar"@, "44100"@]);
        },
    }
}

/// Exactly which of the six steering flags the whole built command
/// holds, for every configuration whose paths and preset are not
/// themselves flag-shaped.
proof fn lemma_build_flags(c: EncodingConfig, out: Seq<char>)
    requires
        flagless(c.input_path@),
        flagless(c.encoding_preset@),
        flagless(out),
    ensures
        spec_build(c, out).contains("-q:a"@) <==> (c.selected_function
            != FunctionType::ConvertToMp4 && c.audio_format == AudioFormat::MP3
            && c.use_audio_quality),
        spec_build(c, out).contains("-b:a"@) <==> (c.selected_function
            != FunctionType::ConvertToMp4 && ((c.audio_format == AudioFormat::MP3
            && !c.use_audio_quality) || c.audio_format == AudioFormat::OPUS || c.audio_format
            == AudioFormat::AAC)),
        spec_build(c, out).contains("-crf"@) <==> (c.selected_function
            == FunctionType::CompressVideo && c.use_crf && c.framerate_mode
            == FrameRateMode::CFR),
        spec_build(c, out).contains("-b:v"@) <==> (c.selected_function
            == FunctionType::CompressVideo && !(c.use_crf && c.framerate_mode
            == FrameRateMode::CFR)),
        spec_build(c, out).contains("-r"@) <==> (c.selected_function
            == FunctionType::CompressVideo && c.framerate_mode == FrameRateMode::CFR),
        spec_build(c, out).contains("-vsync"@) <==> (c.selected_function
            == FunctionType::CompressVideo && c.framerate_mode == FrameRateMode::VFR),
{
    broadcast use lemma_contains_add;

    lemma_lit_facts();
    lemma_spec_dec_digits(c.crf as nat);
    lemma_spec_dec_digits(c.audio_quality as nat);
    lemma_kbps_first(c.video_bitrate as nat);
    lemma_kbps_first(c.audio_bitrate as nat);
    lemma_milli3_first(c.frame_rate_millifps as nat);
    lemma_audio_extract_flags(
        c.audio_format,
        c.use_audio_quality,
        c.audio_quality as nat,
        c.audio_bitrate as nat,
    );
    lemma_audio_compress_flags(
        c.audio_format,
        c.use_audio_quality,
        c.audio_quality as nat,
        c.audio_bitrate as nat,
    );
    let pre = seq!["-i"@, c.input_path@];
    match c.selected_function {
        FunctionType::ExtractAudio => {
        },
        FunctionType::CompressVideo => {
            let vq = video_quality_tokens(
                c.use_crf,
                c.framerate_mode,
                c.crf as nat,
                c.video_bitrate as nat,
            );
            let ft = framerate_tokens(c.framerate_mode, c.frame_rate_millifps as nat);
            if c.use_crf && c.framerate_mode == FrameRateMode::CFR {
                assert(vq =~= seq!["-crf"@, spec_dec(c.crf as nat)]);
                assert(vq.contains("-crf"@)) by {
                    assert(vq[0] == "-crf"@);
                }
            } else {
                assert(vq =~= seq!["-b:v"@, spec_kbps(c.video_bitrate as nat)]);
                assert(vq.contains("-b:v"@)) by {
                    assert(vq[0] == "-b:v"@);
                }
            }
            if c.framerate_mode == FrameRateMode::CFR {
                assert(ft =~= seq!["-r"@, spec_milli3(c.frame_rate_millifps as nat)]);
                assert(ft.contains("-r"@)) by {
                    assert(ft[0] == "-r"@);
                }
            } else {
                assert(ft =~= seq!["-vsync"@, "vfr"@]);
                assert(ft.contains("-vsync"@)) by {
                    assert(ft[0] == "-vsync"@);
                }
            }
        },
        FunctionType::ConvertToMp4 => {
        },
    }
}

/// For every audio codec and both operations that encode audio, the
/// built command never carries both the quality-level flag and the
/// audio-bitrate flag: the two are mutually exclusive.
pub proof fn lemma_no_dual_audio_flags(c: EncodingConfig, out: Seq<char>)
    requires
        flagless(c.input_path@),
        flagless(c.encoding_preset@),
        flagless(out),
    ensures
        !(spec_build(c, out).contains("-q:a"@) && spec_build(c, out).contains("-b:a"@)),
{
    lemma_build_flags(c, out);
}

/// The same exclusion stated for the audio blocks alone, with no
/// assumption on the rest of the configuration.
pub proof fn lemma_audio_block_no_dual_flags(af: AudioFormat, uaq: bool, q: nat, ab: nat)
    ensures
        !(audio_tokens_extract(af, uaq, q, ab).contains("-q:a"@) && audio_tokens_extract(
            af,
            uaq,
            q,
            ab,
        ).contains("-b:a"@)),
        !(audio_tokens_compress(af, uaq, q, ab).contains("-q:a"@) && audio_tokens_compress(
            af,
            uaq,
            q,
            ab,
        ).contains("-b:a"@)),
{
    lemma_audio_extract_flags(af, uaq, q, ab);
    lemma_audio_compress_flags(af, uaq, q, ab);
}

/// Under variable frame rate, the compress-video command never carries
/// a numeric frame-rate flag and always carries the variable-sync flag.
pub proof fn lemma_vfr_no_numeric_rate(c: EncodingConfig, out: Seq<char>)
    requires
        c.selected_function == FunctionType::CompressVideo,
        c.framerate_mode == FrameRateMode::VFR,
        flagless(c.input_path@),
        flagless(c.encoding_preset@),
        flagless(out),
    ensures
        !spec_build(c, out).contains("-r"@),
        spec_build(c, out).contains("-vsync"@),
{
    lemma_build_flags(c, out);
}

/// The compress-video command carries the rate-factor flag exactly when
/// rate-factor mode is on under constant frame rate, and the video
/// bitrate flag exactly otherwise; never both.
pub proof fn lemma_crf_and_bitrate_exclusive(c: EncodingConfig, out: Seq<char>)
    requires
        c.selected_function == FunctionType::CompressVideo,
        flagless(c.input_path@),
        flagless(c.encoding_preset@),
        flagless(out),
    ensures
        (c.use_crf && c.framerate_mode == FrameRateMode::CFR) ==> (spec_build(c, out).contains(
            "-crf"@,
        ) && !spec_build(c, out).contains("-b:v"@)),
        !(c.use_crf && c.framerate_mode == FrameRateMode::CFR) ==> (spec_build(c, out).contains(
            "-b:v"@,
        ) && !spec_build(c, out).contains("-crf"@)),
{
    lemma_build_flags(c, out);
}

} // verus!
