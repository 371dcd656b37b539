//! Parsing of the metadata probe's output: container duration and the
//! first video stream's frame rate, with the fixed fallbacks.

use vstd::prelude::*;
use crate::numfmt::{spec_milli2, spec_milli3, milli2_token, milli3_token};
use crate::strutil::{spec_trim, trim_str, split_on, first_index_of, lemma_first_index_of,
    lemma_first_index_of_is, lemma_split_on_len, find_char_from};
use crate::ffmpeg_utils::{wf_decimal, milli_val, parse_decimal_milli, lemma_seg_milli_bound};
use crate::config::EncodingConfig;

verus! {

/// Duration in milliseconds read from the probe's stdout: the trimmed
/// text as a decimal, raised to at least one second, or nothing when
/// the text is not a number.
pub open spec fn spec_parse_duration(s: Seq<char>) -> Option<int> {
    let t = spec_trim(s);
    if wf_decimal(t) {
        if milli_val(t) < 1000 {
            Some(1000int)
        } else {
            Some(milli_val(t) as int)
        }
    } else {
        None
    }
}

/// Parses the duration probe's stdout.  A parsed duration is clamped
/// below at one second, which also keeps every later progress division
/// well-defined.
pub fn parse_duration_output(s: &str) -> (r: Option<u64>)
    ensures
        match r {
            Some(v) => spec_parse_duration(s@) == Some(v as int) && v >= 1000,
            None => spec_parse_duration(s@) is None,
        },
{
    let t = trim_str(s);
    match parse_decimal_milli(t.as_str()) {
        Some(v) => {
            if v < 1000 {
                Some(1000)
            } else {
                Some(v)
            }
        },
        None => None,
    }
}

/// Frame rate in thousandths of a frame per second read from the
/// probe's stdout: either a rational `N/D` with `D` nonzero, or a
/// plain decimal; capped so it fits the configuration field.
pub open spec fn spec_parse_fps(s: Seq<char>) -> Option<int> {
    let t = spec_trim(s);
    if first_index_of(t, '/') >= 0 {
        let ps = split_on(t, '/');
        if ps.len() == 2 && wf_decimal(ps[0]) && wf_decimal(ps[1]) && milli_val(ps[1]) > 0 {
            let f = milli_val(ps[0]) * 1000 / milli_val(ps[1]);
            if f > 0xFFFF_FFFF {
                Some(0xFFFF_FFFFint)
            } else {
                Some(f as int)
            }
        } else {
            None
        }
    } else {
        if wf_decimal(t) {
            if milli_val(t) > 0xFFFF_FFFF {
                Some(0xFFFF_FFFFint)
            } else {
                Some(milli_val(t) as int)
            }
        } else {
            None
        }
    }
}

/// Parses the frame-rate probe's stdout.
pub fn parse_fps_output(s: &str) -> (r: Option<u32>)
    ensures
        match r {
            Some(v) => spec_parse_fps(s@) == Some(v as int),
            None => spec_parse_fps(s@) is None,
        },
{
    let t = trim_str(s);
    let ts = t.as_str();
    let len = ts.unicode_len();
    let i = find_char_from(ts, 0, '/');
    proof {
        lemma_first_index_of(ts@, '/');
        if i < len {
            lemma_first_index_of_is(ts@, '/', i as int);
        } else {
            if first_index_of(ts@, '/') >= 0 {
                assert(ts@[first_index_of(ts@, '/')] == '/');
            }
        }
    }
    if i < len {
        // a rational: exactly two parts wanted
        let j = find_char_from(ts, i + 1, '/');
        let rest = ts.substring_char(i + 1, len);
        proof {
            assert(rest@ =~= ts@.skip(i + 1));
            lemma_first_index_of(rest@, '/');
            if j < len {
                assert(forall|m: int| 0 <= m < rest@.len() ==> rest@[m] == ts@[i + 1 + m]);
                lemma_first_index_of_is(rest@, '/', j - (i + 1));
            } else {
                if first_index_of(rest@, '/') >= 0 {
                    assert(rest@[first_index_of(rest@, '/')] == '/');
                    assert(ts@[i + 1 + first_index_of(rest@, '/')] == '/');
                }
            }
        }
        if j < len {
            // three or more parts
            proof {
                lemma_split_on_len(rest@.skip(j - i), '/');
                assert(split_on(rest@, '/') =~= seq![rest@.take(j - (i + 1))] + split_on(
                    rest@.skip(j - i),
                    '/',
                ));
                assert(split_on(ts@, '/') =~= seq![ts@.take(i as int)] + split_on(rest@, '/'));
            }
            return None;
        }
        proof {
            assert(split_on(rest@, '/') =~= seq![rest@]);
            assert(split_on(ts@, '/') =~= seq![ts@.take(i as int), rest@]);
        }
        let p0 = ts.substring_char(0, i);
        let num = match parse_decimal_milli(p0) {
            Some(v) => v,
            None => {
                return None;
            },
        };
        let den = match parse_decimal_milli(rest) {
            Some(v) => v,
            None => {
                return None;
            },
        };
        if den == 0 {
            return None;
        }
        proof {
            lemma_seg_milli_bound(p0@);
        }
        let f = (num * 1000) / den;
        if f > 0xFFFF_FFFF {
            Some(0xFFFF_FFFF)
        } else {
            Some(f as u32)
        }
    } else {
        match parse_decimal_milli(ts) {
            Some(v) => {
                if v > 0xFFFF_FFFF {
                    Some(0xFFFF_FFFF)
                } else {
                    Some(v as u32)
                }
            },
            None => None,
        }
    }
}

/// The duration the configuration ends up with.
pub open spec fn spec_dur_after(out: Option<String>, old_d: u64) -> int {
    match out {
        None => 1000,
        Some(s) => match spec_parse_duration(s@) {
            Some(v) => v,
            None => old_d as int,
        },
    }
}

/// The log line the duration probe adds.
pub open spec fn spec_dur_line(out: Option<String>, old_d: u64) -> Seq<char> {
    match out {
        None => "Could not determine file duration, using default.\n"@,
        Some(s) => match spec_parse_duration(s@) {
            Some(v) => "File duration: "@ + spec_milli2(v as nat) + " seconds\n"@,
            None => Seq::empty(),
        },
    }
}

/// The frame rate the probe yields, when it yields one.
pub open spec fn spec_fps_after(out: Option<String>) -> Option<int> {
    match out {
        None => None,
        Some(s) => spec_parse_fps(s@),
    }
}

/// The log line the frame-rate probe adds.
pub open spec fn spec_fps_line(out: Option<String>) -> Seq<char> {
    match spec_fps_after(out) {
        Some(f) => "Original frame rate: "@ + spec_milli3(f as nat) + " fps\n"@,
        None => "Could not determine original frame rate, using 30 fps.\n"@,
    }
}

/// Whatever the probe reports, the duration used afterwards is at
/// least one second, so computing a progress fraction never divides
/// by zero: a failed probe falls back to exactly one second.
pub proof fn lemma_probe_duration_positive(out: Option<String>, old_d: u64)
    requires
        old_d >= 1000,
    ensures
        spec_dur_after(out, old_d) >= 1000,
{
}

/// Applies both probe results to the configuration, exactly as the
/// fallbacks prescribe: a failed duration probe keeps one second, a
/// failed frame-rate probe keeps thirty frames per second, a probed
/// frame rate seeds the working rate capped at sixty.
pub fn apply_probe(
    cfg: &mut EncodingConfig,
    log: &mut String,
    input_exists: bool,
    duration_out: Option<String>,
    fps_out: Option<String>,
)
    ensures
        final(cfg).input_path == old(cfg).input_path,
        final(cfg).output_path == old(cfg).output_path,
        final(cfg).selected_function == old(cfg).selected_function,
        final(cfg).output_format == old(cfg).output_format,
        final(cfg).audio_format == old(cfg).audio_format,
        final(cfg).crf == old(cfg).crf,
        final(cfg).video_bitrate == old(cfg).video_bitrate,
        final(cfg).framerate_mode == old(cfg).framerate_mode,
        final(cfg).use_crf == old(cfg).use_crf,
        final(cfg).encoding_preset == old(cfg).encoding_preset,
        final(cfg).audio_bitrate == old(cfg).audio_bitrate,
        final(cfg).audio_quality == old(cfg).audio_quality,
        final(cfg).use_audio_quality == old(cfg).use_audio_quality,
        final(cfg).last_command == old(cfg).last_command,
        !input_exists ==> final(cfg).duration_ms == 1000 && final(cfg).original_fps_millifps
            == 30000 && final(cfg).frame_rate_millifps == old(cfg).frame_rate_millifps
            && final(log)@ == old(log)@,
        input_exists ==> final(cfg).duration_ms == spec_dur_after(
            duration_out,
            old(cfg).duration_ms,
        ),
        input_exists ==> (match spec_fps_after(fps_out) {
            Some(f) => final(cfg).original_fps_millifps == f && final(cfg).frame_rate_millifps
                == (if f > 60000 {
                60000int
            } else {
                f
            }),
            None => final(cfg).original_fps_millifps == 30000 && final(cfg).frame_rate_millifps
                == 30000,
        }),
        input_exists ==> final(log)@ == old(log)@ + "Probing file information...\n"@
            + spec_dur_line(duration_out, old(cfg).duration_ms) + spec_fps_line(fps_out),
{
    if !input_exists {
        cfg.duration_ms = 1000;
        cfg.original_fps_millifps = 30000;
        return;
    }
    log.append("Probing file information...\n");
    match duration_out {
        Some(s) => {
            match parse_duration_output(s.as_str()) {
                Some(d) => {
                    cfg.duration_ms = d;
                    log.append("File duration: ");
                    let t = milli2_token(d);
                    log.append(t.as_str());
                    log.append(" seconds\n");
                },
                None => {
                    // unreadable duration text: keep what we had
                },
            }
        },
        None => {
            cfg.duration_ms = 1000;
            log.append("Could not determine file duration, using default.\n");
        },
    }
    match fps_out {
        Some(s) => {
            match parse_fps_output(s.as_str()) {
                Some(f) => {
                    cfg.original_fps_millifps = f;
                    cfg.frame_rate_millifps = if f > 60000 {
                        60000
                    } else {
                        f
                    };
                    log.append("Original frame rate: ");
                    let t = milli3_token(f);
                    log.append(t.as_str());
                    log.append(" fps\n");
                },
                None => {
                    cfg.original_fps_millifps = 30000;
                    cfg.frame_rate_millifps = 30000;
                    log.append("Could not determine original frame rate, using 30 fps.\n");
                },
            }
        },
        None => {
            cfg.original_fps_millifps = 30000;
            cfg.frame_rate_millifps = 30000;
            log.append("Could not determine original frame rate, using 30 fps.\n");
        },
    }
}

} // verus!
