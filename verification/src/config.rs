//! The encoding configuration and the command builder.
//!
//! `build_command` is a pure function from a configuration snapshot to
//! the transcoder's ordered argument vector; its whole output is pinned
//! down by `spec_build`.  Frame rates are carried in thousandths of a
//! frame per second and durations in milliseconds, so no argument token
//! depends on floating point.

use vstd::prelude::*;
use crate::enums::{AudioFormat, FunctionType, FrameRateMode, OutputFormat};
use crate::numfmt::{spec_dec, spec_kbps, spec_milli3, u64_to_dec, kbps_token, milli3_token};
use crate::ffmpeg_utils::{dir_of, fname_of, raw_stem_of, uniquified, unique_path, lemma_uniquified_unique};

verus! {

/// One immutable snapshot of everything the user has chosen.
pub struct EncodingConfig {
    pub input_path: String,
    pub output_path: String,
    pub selected_function: FunctionType,
    pub output_format: OutputFormat,
    pub audio_format: AudioFormat,
    /// Rate factor, 0 (best) to 51.
    pub crf: u8,
    /// Video bitrate in kilobits per second.
    pub video_bitrate: u32,
    pub framerate_mode: FrameRateMode,
    /// Rate factor instead of bitrate for video quality.
    pub use_crf: bool,
    /// Encoder speed preset, e.g. `medium`.
    pub encoding_preset: String,
    /// Target frame rate, in thousandths of a frame per second.
    pub frame_rate_millifps: u32,
    /// The probed source frame rate, same unit, kept as the upper bound.
    pub original_fps_millifps: u32,
    /// Audio bitrate in kilobits per second.
    pub audio_bitrate: u32,
    /// Codec-dependent quality level.
    pub audio_quality: u8,
    /// Quality level instead of bitrate for audio.
    pub use_audio_quality: bool,
    /// Preview of the command last built.
    pub last_command: String,
    /// Probed source duration in milliseconds, at least 1000.
    pub duration_ms: u64,
}

impl EncodingConfig {
    /// The documented ranges of the tunable fields: rate factor up to
    /// 51, video bitrate 100 to 50000 kilobits, a positive frame rate,
    /// audio bitrate 8 to 512 kilobits, and one of the nine named
    /// encoder presets.  The presentation layer keeps its edits inside
    /// these bounds; the start state below satisfies them.
    pub open spec fn wf(self) -> bool {
        &&& self.crf <= 51
        &&& 100 <= self.video_bitrate <= 50000
        &&& self.frame_rate_millifps >= 1
        &&& 8 <= self.audio_bitrate <= 512
        &&& (self.encoding_preset@ == "ultrafast"@ || self.encoding_preset@ == "superfast"@
            || self.encoding_preset@ == "veryfast"@ || self.encoding_preset@ == "faster"@
            || self.encoding_preset@ == "fast"@ || self.encoding_preset@ == "medium"@
            || self.encoding_preset@ == "slow"@ || self.encoding_preset@ == "slower"@
            || self.encoding_preset@ == "veryslow"@)
    }
}

impl Default for EncodingConfig {
    /// The configuration the application starts with.
    fn default() -> (r: Self)
        ensures
            r.input_path@ == Seq::<char>::empty(),
            r.output_path@ == Seq::<char>::empty(),
            r.selected_function == FunctionType::ExtractAudio,
            r.output_format == OutputFormat::Mp4,
            r.audio_format == AudioFormat::MP3,
            r.crf == 28,
            r.video_bitrate == 2000,
            r.framerate_mode == FrameRateMode::CFR,
            r.use_crf,
            r.encoding_preset@ == "medium"@,
            r.frame_rate_millifps == 30000,
            r.original_fps_millifps == 30000,
            r.audio_bitrate == 192,
            r.audio_quality == 4,
            r.use_audio_quality,
            r.last_command@ == Seq::<char>::empty(),
            r.duration_ms == 1000,
            r.wf(),
    {
        EncodingConfig {
            input_path: String::new(),
            output_path: String::new(),
            selected_function: FunctionType::ExtractAudio,
            output_format: OutputFormat::Mp4,
            audio_format: AudioFormat::MP3,
            crf: 28,
            video_bitrate: 2000,
            framerate_mode: FrameRateMode::CFR,
            use_crf: true,
            encoding_preset: String::from_str("medium"),
            frame_rate_millifps: 30000,
            original_fps_millifps: 30000,
            audio_bitrate: 192,
            audio_quality: 4,
            use_audio_quality: true,
            last_command: String::new(),
            duration_ms: 1000,
        }
    }
}

/// The views of an argument vector's entries.
pub open spec fn toks(v: Seq<String>) -> Seq<Seq<char>> {
    v.map_values(|s: String| s@)
}

pub broadcast proof fn lemma_toks_push(v: Seq<String>, x: String)
    ensures
        #[trigger] toks(v.push(x)) == toks(v).push(x@),
{
    assert(toks(v.push(x)) =~= toks(v).push(x@));
}

/// Audio arguments of the extract-audio operation: codec selection plus
/// exactly one way of steering quality.
pub open spec fn audio_tokens_extract(af: AudioFormat, uaq: bool, q: nat, ab: nat) -> Seq<
    Seq<char>,
> {
    match af {
        AudioFormat::MP3 => seq!["-c:a"@, "libmp3lame"@] + (if uaq {
            seq!["-q:a"@, spec_dec(q)]
        } else {
            seq!["-b:a"@, spec_kbps(ab)]
        }),
        AudioFormat::OPUS => seq![
            "-c:a"@,
            "libopus"@,
            "-b:a"@,
            spec_kbps(ab),
            "-strict"@,
            "experimental"@,
        ],
        AudioFormat::AAC => seq!["-c:a"@, "aac"@, "-b:a"@, spec_kbps(ab), "-strict"@, "experimental"@],
        AudioFormat::FLAC => seq!["-c:a"@, "flac"@, "-compression_level"@, spec_dec(q)],
        AudioFormat::WAV => seq!["-c:a"@, "pcm_s16le"@, "-ar"@, "44100"@],
    }
}

/// Audio arguments of the compress-video operation; the leading `-c:a`
/// is emitted by the caller.  FLAC carries the experimental-feature
/// flag here and not under extract-audio; the asymmetry is the tool's
/// historical behaviour, kept as it is.
pub open spec fn audio_tokens_compress(af: AudioFormat, uaq: bool, q: nat, ab: nat) -> Seq<
    Seq<char>,
> {
    match af {
        AudioFormat::MP3 => seq!["libmp3lame"@] + (if uaq {
            seq!["-q:a"@, spec_dec(q)]
        } else {
            seq!["-b:a"@, spec_kbps(ab)]
        }),
        AudioFormat::OPUS => seq![
            "libopus"@,
            "-b:a"@,
            spec_kbps(ab),
            "-compression_level"@,
            spec_dec(q),
            "-strict"@,
            "experimental"@,
        ],
        AudioFormat::AAC => seq!["aac"@, "-b:a"@, spec_kbps(ab), "-strict"@, "experimental"@],
        AudioFormat::FLAC => seq![
            "flac"@,
            "-compression_level"@,
            spec_dec(q),
            "-strict"@,
            "experimental"@,
        ],
        AudioFormat::WAV => seq!["pcm_s16le"@, "-ar"@, "44100"@],
    }
}

/// Exactly one video-quality flag: the rate factor only under constant
/// frame rate with rate-factor mode on, a bitrate otherwise.
pub open spec fn video_quality_tokens(use_crf: bool, frm: FrameRateMode, crf: nat, vb: nat) -> Seq<
    Seq<char>,
> {
    if use_crf && frm == FrameRateMode::CFR {
        seq!["-crf"@, spec_dec(crf)]
    } else {
        seq!["-b:v"@, spec_kbps(vb)]
    }
}

/// Constant mode names the rate with three decimals; variable mode
/// emits the sync flag and no numeric rate.
pub open spec fn framerate_tokens(frm: FrameRateMode, fr: nat) -> Seq<Seq<char>> {
    if frm == FrameRateMode::CFR {
        seq!["-r"@, spec_milli3(fr)]
    } else {
        seq!["-vsync"@, "vfr"@]
    }
}

/// The full argument vector for configuration `c` writing to `out`.
pub open spec fn spec_build(c: EncodingConfig, out: Seq<char>) -> Seq<Seq<char>> {
    let pre = seq!["-i"@, c.input_path@];
    match c.selected_function {
        FunctionType::ExtractAudio => pre + seq!["-vn"@, "-sn"@, "-map"@, "0:a"@]
            + audio_tokens_extract(
            c.audio_format,
            c.use_audio_quality,
            c.audio_quality as nat,
            c.audio_bitrate as nat,
        ) + seq!["-y"@, out],
        FunctionType::CompressVideo => pre + seq!["-map"@, "0"@, "-c:v"@, "libx264"@]
            + video_quality_tokens(
            c.use_crf,
            c.framerate_mode,
            c.crf as nat,
            c.video_bitrate as nat,
        ) + seq!["-preset"@, c.encoding_preset@] + framerate_tokens(
            c.framerate_mode,
            c.frame_rate_millifps as nat,
        ) + seq!["-c:a"@] + audio_tokens_compress(
            c.audio_format,
            c.use_audio_quality,
            c.audio_quality as nat,
            c.audio_bitrate as nat,
        ) + seq!["-c:s"@, "copy"@, "-y"@, out],
        FunctionType::ConvertToMp4 => pre + seq!["-map"@, "0"@, "-c"@, "copy"@, "-y"@, out],
    }
}

/// The command line as shown to the user: tokens joined by one space.
pub open spec fn join_spaces(ts: Seq<Seq<char>>) -> Seq<char>
    decreases ts.len(),
{
    if ts.len() == 0 {
        Seq::empty()
    } else if ts.len() == 1 {
        ts[0]
    } else {
        ts[0] + " "@ + join_spaces(ts.drop_first())
    }
}

/// Joins the argument vector with spaces.
pub fn join_tokens(v: &Vec<String>) -> (r: String)
    ensures
        r@ == join_spaces(toks(v@)),
{
    let mut r = String::new();
    let mut k = v.len();
    proof {
        assert(toks(v@).skip(k as int) =~= Seq::<Seq<char>>::empty());
    }
    while k > 0
        invariant
            0 <= k <= v@.len(),
            r@ == join_spaces(toks(v@).skip(k as int)),
        decreases k,
    {
        k = k - 1;
        let mut nr = v[k].clone();
        if k + 1 < v.len() {
            nr.append(" ");
            nr.append(r.as_str());
        }
        proof {
            let ts = toks(v@);
            assert(ts.skip(k as int)[0] == v@[k as int]@);
            assert(ts.skip(k as int).drop_first() =~= ts.skip(k + 1));
            if k + 1 < v@.len() {
                assert(nr@ == ts.skip(k as int)[0] + " "@ + join_spaces(ts.skip(k + 1)));
            } else {
                assert(ts.skip(k as int).len() == 1);
            }
        }
        r = nr;
    }
    proof {
        assert(toks(v@).skip(0) =~= toks(v@));
    }
    r
}

/// An owned copy of a literal token.
fn tok(s: &str) -> (r: String)
    ensures
        r@ == s@,
{
    String::from_str(s)
}

/// Appends the extract-audio audio block.
fn push_audio_extract(cmd: &mut Vec<String>, af: AudioFormat, uaq: bool, q: u8, ab: u32)
    ensures
        toks(final(cmd)@) == toks(old(cmd)@) + audio_tokens_extract(af, uaq, q as nat, ab as nat),
{
    match af {
        AudioFormat::MP3 => {
            cmd.push(tok("-c:a"));
            cmd.push(tok("libmp3lame"));
            if uaq {
                cmd.push(tok("-q:a"));
                cmd.push(u64_to_dec(q as u64));
            } else {
                cmd.push(tok("-b:a"));
                cmd.push(kbps_token(ab));
            }
        },
        AudioFormat::OPUS => {
            cmd.push(tok("-c:a"));
            cmd.push(tok("libopus"));
            cmd.push(tok("-b:a"));
            cmd.push(kbps_token(ab));
            cmd.push(tok("-strict"));
            cmd.push(tok("experimental"));
        },
        AudioFormat::AAC => {
            cmd.push(tok("-c:a"));
            cmd.push(tok("aac"));
            cmd.push(tok("-b:a"));
            cmd.push(kbps_token(ab));
            cmd.push(tok("-strict"));
            cmd.push(tok("experimental"));
        },
        AudioFormat::FLAC => {
            cmd.push(tok("-c:a"));
            cmd.push(tok("flac"));
            cmd.push(tok("-compression_level"));
            cmd.push(u64_to_dec(q as u64));
        },
        AudioFormat::WAV => {
            cmd.push(tok("-c:a"));
            cmd.push(tok("pcm_s16le"));
            cmd.push(tok("-ar"));
            cmd.push(tok("44100"));
        },
    }
    proof {
        assert(toks(cmd@) =~= toks(old(cmd)@) + audio_tokens_extract(
            af,
            uaq,
            q as nat,
            ab as nat,
        ));
    }
}

/// Appends the compress-video audio block (after `-c:a`).
fn push_audio_compress(cmd: &mut Vec<String>, af: AudioFormat, uaq: bool, q: u8, ab: u32)
    ensures
        toks(final(cmd)@) == toks(old(cmd)@) + audio_tokens_compress(af, uaq, q as nat, ab as nat),
{
    match af {
        AudioFormat::MP3 => {
            cmd.push(tok("libmp3lame"));
            if uaq {
                cmd.push(tok("-q:a"));
                cmd.push(u64_to_dec(q as u64));
            } else {
                cmd.push(tok("-b:a"));
                cmd.push(kbps_token(ab));
            }
        },
        AudioFormat::OPUS => {
            cmd.push(tok("libopus"));
            cmd.push(tok("-b:a"));
            cmd.push(kbps_token(ab));
            cmd.push(tok("-compression_level"));
            cmd.push(u64_to_dec(q as u64));
            cmd.push(tok("-strict"));
            cmd.push(tok("experimental"));
        },
        AudioFormat::AAC => {
            cmd.push(tok("aac"));
            cmd.push(tok("-b:a"));
            cmd.push(kbps_token(ab));
            cmd.push(tok("-strict"));
            cmd.push(tok("experimental"));
        },
        AudioFormat::FLAC => {
            cmd.push(tok("flac"));
            cmd.push(tok("-compression_level"));
            cmd.push(u64_to_dec(q as u64));
            cmd.push(tok("-strict"));
            cmd.push(tok("experimental"));
        },
        AudioFormat::WAV => {
            cmd.push(tok("pcm_s16le"));
            cmd.push(tok("-ar"));
            cmd.push(tok("44100"));
        },
    }
    proof {
        assert(toks(cmd@) =~= toks(old(cmd)@) + audio_tokens_compress(
            af,
            uaq,
            q as nat,
            ab as nat,
        ));
    }
}

impl EncodingConfig {
    /// What the resolved output path of `build_command` may be.
    pub open spec fn resolved_output_ok(self, ex: Seq<String>, out: Seq<char>) -> bool {
        if self.output_path@.len() > 0 {
            out == self.output_path@
        } else {
            self.default_output_ok(ex, out)
        }
    }

    /// The name `default_output` derives before uniquification.
    pub open spec fn spec_default_name(self) -> Seq<char> {
        dir_of(self.input_path@) + raw_stem_of(self.input_path@) + self.spec_default_suffix()
    }

    /// The operation-specific suffix and extension of the derived name.
    pub open spec fn spec_default_suffix(self) -> Seq<char> {
        match self.selected_function {
            FunctionType::ExtractAudio => "-Audio."@ + self.audio_format.spec_ext(),
            FunctionType::CompressVideo => "-Compressed."@ + self.output_format.spec_ext(),
            FunctionType::ConvertToMp4 => "-Converted."@ + self.output_format.spec_ext(),
        }
    }

    /// What `default_output` may return: empty for a nameless input,
    /// otherwise the derived name made unique against `ex`.
    pub open spec fn default_output_ok(self, ex: Seq<String>, out: Seq<char>) -> bool {
        if fname_of(self.input_path@).len() == 0 {
            out == Seq::<char>::empty()
        } else {
            uniquified(ex, self.spec_default_name(), out)
        }
    }

    /// Derives the default output path for the current operation from
    /// the input path: its stem, an operation suffix, and the right
    /// extension, made unique against the paths in `existing`.
    pub fn default_output(&self, existing: &Vec<String>) -> (r: String)
        requires
            existing@.len() < 0xFFFF_FFFF_FFFF_FFFFu64,
        ensures
            self.default_output_ok(existing@, r@),
    {
        if crate::ffmpeg_utils::fname_len(&self.input_path) == 0 {
            return String::new();
        }
        let (dir, stem) = crate::ffmpeg_utils::split_dir_stem(&self.input_path);
        let mut name = String::new();
        name.append(dir.as_str());
        name.append(stem.as_str());
        match self.selected_function {
            FunctionType::ExtractAudio => {
                name.append("-Audio.");
                name.append(self.audio_format.ext());
            },
            FunctionType::CompressVideo => {
                name.append("-Compressed.");
                name.append(self.output_format.ext());
            },
            FunctionType::ConvertToMp4 => {
                name.append("-Converted.");
                name.append(self.output_format.ext());
            },
        }
        proof {
            assert(name@ =~= self.spec_default_name());
        }
        unique_path(name, existing)
    }

    /// Builds the transcoder's argument vector.  The output path is the
    /// configured one, or the derived default when none is set.
    #[verifier::rlimit(60)]
    pub fn build_command(&self, existing: &Vec<String>) -> (r: Vec<String>)
        requires
            existing@.len() < 0xFFFF_FFFF_FFFF_FFFFu64,
        ensures
            exists|out: Seq<char>| #[trigger] self.resolved_output_ok(existing@, out)
                && toks(r@) == spec_build(*self, out),
            self.output_path@.len() > 0 ==> toks(r@) == spec_build(*self, self.output_path@),
    {
        let output: String = if self.output_path.as_str().unicode_len() == 0 {
            self.default_output(existing)
        } else {
            self.output_path.clone()
        };
        let ghost out_view: Seq<char> = output@;
        let mut cmd: Vec<String> = Vec::new();
        cmd.push(tok("-i"));
        cmd.push(self.input_path.clone());
        match self.selected_function {
            FunctionType::ExtractAudio => {
                cmd.push(tok("-vn"));
                cmd.push(tok("-sn"));
                cmd.push(tok("-map"));
                cmd.push(tok("0:a"));
                push_audio_extract(
                    &mut cmd,
                    self.audio_format,
                    self.use_audio_quality,
                    self.audio_quality,
                    self.audio_bitrate,
                );
                cmd.push(tok("-y"));
                cmd.push(output);
            },
            FunctionType::CompressVideo => {
                cmd.push(tok("-map"));
                cmd.push(tok("0"));
                cmd.push(tok("-c:v"));
                cmd.push(tok("libx264"));
                if self.use_crf && matches!(self.framerate_mode, FrameRateMode::CFR) {
                    cmd.push(tok("-crf"));
                    cmd.push(u64_to_dec(self.crf as u64));
                } else {
                    cmd.push(tok("-b:v"));
                    cmd.push(kbps_token(self.video_bitrate));
                }
                cmd.push(tok("-preset"));
                cmd.push(self.encoding_preset.clone());
                if matches!(self.framerate_mode, FrameRateMode::CFR) {
                    cmd.push(tok("-r"));
                    cmd.push(milli3_token(self.frame_rate_millifps));
                } else {
                    cmd.push(tok("-vsync"));
                    cmd.push(tok("vfr"));
                }
                cmd.push(tok("-c:a"));
                push_audio_compress(
                    &mut cmd,
                    self.audio_format,
                    self.use_audio_quality,
                    self.audio_quality,
                    self.audio_bitrate,
                );
                cmd.push(tok("-c:s"));
                cmd.push(tok("copy"));
                cmd.push(tok("-y"));
                cmd.push(output);
            },
            FunctionType::ConvertToMp4 => {
                cmd.push(tok("-map"));
                cmd.push(tok("0"));
                cmd.push(tok("-c"));
                cmd.push(tok("copy"));
                cmd.push(tok("-y"));
                cmd.push(output);
            },
        }
        proof {
            broadcast use lemma_toks_push;

            assert(toks(cmd@) =~= spec_build(*self, out_view));
            assert(self.resolved_output_ok(existing@, out_view));
        }
        cmd
    }

    /// Resolves the destination before a launch: an empty destination
    /// is derived from the input, a set one is made unique against the
    /// paths that exist.
    pub fn resolve_output(&mut self, existing: &Vec<String>)
        requires
            existing@.len() < 0xFFFF_FFFF_FFFF_FFFFu64,
        ensures
            final(self).input_path == old(self).input_path,
            final(self).selected_function == old(self).selected_function,
            final(self).output_format == old(self).output_format,
            final(self).audio_format == old(self).audio_format,
            final(self).crf == old(self).crf,
            final(self).video_bitrate == old(self).video_bitrate,
            final(self).framerate_mode == old(self).framerate_mode,
            final(self).use_crf == old(self).use_crf,
            final(self).encoding_preset == old(self).encoding_preset,
            final(self).frame_rate_millifps == old(self).frame_rate_millifps,
            final(self).original_fps_millifps == old(self).original_fps_millifps,
            final(self).audio_bitrate == old(self).audio_bitrate,
            final(self).audio_quality == old(self).audio_quality,
            final(self).use_audio_quality == old(self).use_audio_quality,
            final(self).last_command == old(self).last_command,
            final(self).duration_ms == old(self).duration_ms,
            old(self).output_path@.len() == 0 ==> old(self).default_output_ok(
                existing@,
                final(self).output_path@,
            ),
            old(self).output_path@.len() > 0 ==> uniquified(
                existing@,
                old(self).output_path@,
                final(self).output_path@,
            ),
    {
        if self.output_path.as_str().unicode_len() == 0 {
            let d = self.default_output(existing);
            self.output_path = d;
        } else {
            let p = self.output_path.clone();
            let u = unique_path(p, existing);
            self.output_path = u;
        }
    }

    /// The name `update_command` retargets a set output path to: same
    /// directory and stem, the extension that fits the operation.
    pub open spec fn retarget_name(self) -> Seq<char> {
        dir_of(self.output_path@) + raw_stem_of(self.output_path@) + "."@ + (
        match self.selected_function {
            FunctionType::ExtractAudio => self.audio_format.spec_ext(),
            _ => self.output_format.spec_ext(),
        })
    }

    /// Re-derives the output path for the current operation (fixing its
    /// extension, or deriving it afresh when none is set), makes it
    /// unique, and refreshes the command preview.
    pub fn update_command(&mut self, existing: &Vec<String>)
        requires
            existing@.len() < 0xFFFF_FFFF_FFFF_FFFFu64,
        ensures
            final(self).input_path == old(self).input_path,
            final(self).selected_function == old(self).selected_function,
            final(self).output_format == old(self).output_format,
            final(self).audio_format == old(self).audio_format,
            final(self).crf == old(self).crf,
            final(self).video_bitrate == old(self).video_bitrate,
            final(self).framerate_mode == old(self).framerate_mode,
            final(self).use_crf == old(self).use_crf,
            final(self).encoding_preset == old(self).encoding_preset,
            final(self).frame_rate_millifps == old(self).frame_rate_millifps,
            final(self).original_fps_millifps == old(self).original_fps_millifps,
            final(self).audio_bitrate == old(self).audio_bitrate,
            final(self).audio_quality == old(self).audio_quality,
            final(self).use_audio_quality == old(self).use_audio_quality,
            final(self).duration_ms == old(self).duration_ms,
            old(self).output_path@.len() > 0 ==> uniquified(
                existing@,
                old(self).retarget_name(),
                final(self).output_path@,
            ),
            old(self).output_path@.len() == 0 ==> old(self).default_output_ok(
                existing@,
                final(self).output_path@,
            ),
            final(self).last_command@ == join_spaces(
                spec_build(*final(self), final(self).output_path@),
            ),
    {
        if self.output_path.as_str().unicode_len() > 0 {
            let (dir, stem) = crate::ffmpeg_utils::split_dir_stem(&self.output_path);
            let mut name = String::new();
            name.append(dir.as_str());
            name.append(stem.as_str());
            name.append(".");
            match self.selected_function {
                FunctionType::ExtractAudio => name.append(self.audio_format.ext()),
                _ => name.append(self.output_format.ext()),
            }
            proof {
                assert(name@ =~= self.retarget_name());
                reveal_strlit(".");
            }
            let out = unique_path(name, existing);
            self.output_path = out;
        } else {
            let d = self.default_output(existing);
            self.output_path = d;
        }
        let cmd = self.build_command(existing);
        let ghost out_w = choose|out: Seq<char>| #[trigger] self.resolved_output_ok(
            existing@,
            out,
        ) && toks(cmd@) == spec_build(*self, out);
        proof {
            if self.output_path@.len() > 0 {
                assert(out_w == self.output_path@);
            } else {
                if fname_of(self.input_path@).len() == 0 {
                    assert(out_w =~= self.output_path@);
                } else {
                    lemma_uniquified_unique(
                        existing@,
                        self.spec_default_name(),
                        out_w,
                        self.output_path@,
                    );
                }
            }
        }
        let lc = join_tokens(&cmd);
        self.last_command = lc;
    }
}

} // verus!
