//! The job supervisor's state: at most one running transcode, its log,
//! its progress, and the transitions the supervising tasks drive.
//!
//! All blocking work (spawning, reading the diagnostic stream, waiting,
//! killing) happens outside; each outside event is applied here through
//! a transition with an exact contract.  Progress is held in thousandths
//! of the whole job and never leaves `[0, 1000]`.

use vstd::prelude::*;
use crate::config::{EncodingConfig, spec_build, toks};
use crate::strutil::{
    find_sub, lemma_find_sub, lemma_find_sub_is, first_non_ws, first_ws, skip_ws_from,
    find_ws_from,
};
use crate::ffmpeg_utils::{spec_timecode_ms, parse_timecode, dir_of};

verus! {

/// What a start request decided.
#[derive(Debug)]
pub enum StartOutcome {
    /// Launch the transcoder with these arguments.
    Spawn(Vec<String>),
    /// The request was refused; the log says why.
    Rejected,
}

/// What a cancel request decided.
#[derive(Debug, PartialEq, Eq, Structural)]
pub enum CancelOutcome {
    /// A process is live: kill it, then report back.
    Kill,
    /// Nothing was running.
    NoOp,
}

/// Shared state of the one supervised job.
pub struct JobState {
    /// A job is underway.
    pub running: bool,
    /// Completed thousandths of the job, between 0 and 1000.
    pub progress_permille: u32,
    /// The append-only diagnostic log.
    pub log: String,
    /// A process handle is live on the outside.
    pub child_present: bool,
}

impl Default for JobState {
    /// The idle state the application starts in.
    fn default() -> (r: Self)
        ensures
            !r.running,
            r.progress_permille == 0,
            r.log@ == Seq::<char>::empty(),
            !r.child_present,
    {
        JobState { running: false, progress_permille: 0, log: String::new(), child_present: false }
    }
}

/// The progress fraction in thousandths: elapsed over total, clamped
/// into `[0, 1000]` however large the parsed timecode is.
pub open spec fn spec_progress(t_ms: nat, dur_ms: u64) -> int
    recommends
        dur_ms >= 1,
{
    let p = t_ms * 1000 / (dur_ms as nat);
    if p > 1000 {
        1000
    } else {
        p as int
    }
}

/// Computes the clamped progress fraction.  The clamp holds even when
/// the timecode exceeds the probed duration.
pub fn progress_permille_of(t_ms: u64, dur_ms: u64) -> (p: u32)
    requires
        dur_ms >= 1,
    ensures
        p == spec_progress(t_ms as nat, dur_ms),
        p <= 1000,
{
    let prod: u128 = (t_ms as u128) * 1000;
    let q: u128 = prod / (dur_ms as u128);
    if q > 1000 {
        1000
    } else {
        q as u32
    }
}

/// The progress token of a diagnostic line: the first whitespace-free
/// word after the first `time=` marker, if both exist.
pub open spec fn spec_time_token(line: Seq<char>) -> Option<Seq<char>> {
    let i = find_sub(line, "time="@);
    if i == -1 {
        None
    } else {
        let rest = line.skip(i + 5);
        let a = first_non_ws(rest);
        if a == rest.len() {
            None
        } else {
            let r2 = rest.skip(a);
            Some(r2.take(first_ws(r2)))
        }
    }
}

/// The progress value after reading one line: unchanged without a
/// token, otherwise raised (never lowered) to the clamped fraction the
/// token names.
pub open spec fn spec_line_progress(old_p: u32, line: Seq<char>, dur_ms: u64) -> int {
    match spec_time_token(line) {
        None => old_p as int,
        Some(t) => {
            let p = spec_progress(spec_timecode_ms(t), dur_ms);
            if p > old_p {
                p
            } else {
                old_p as int
            }
        },
    }
}

/// Finds the first `time=` marker.
fn find_time(line: &str) -> (r: Option<usize>)
    ensures
        match r {
            Some(i) => find_sub(line@, "time="@) == i && i + 5 <= line@.len(),
            None => find_sub(line@, "time="@) == -1,
        },
{
    proof {
        reveal_strlit("time=");
    }
    let len = line.unicode_len();
    let mut i: usize = 0;
    while i < len && len - i >= 5
        invariant
            0 <= i <= len,
            len == line@.len(),
            "time="@.len() == 5,
            "time="@[0] == 't' && "time="@[1] == 'i' && "time="@[2] == 'm' && "time="@[3] == 'e'
                && "time="@[4] == '=',
            forall|j: int| 0 <= j < i ==> #[trigger] line@.subrange(j, j + 5) != "time="@,
        decreases len - i,
    {
        if line.get_char(i) == 't' && line.get_char(i + 1) == 'i' && line.get_char(i + 2) == 'm'
            && line.get_char(i + 3) == 'e' && line.get_char(i + 4) == '=' {
            proof {
                assert(line@.subrange(i as int, i + 5) =~= "time="@);
                lemma_find_sub_is(line@, "time="@, i as int);
            }
            return Some(i);
        }
        proof {
            assert(line@.subrange(i as int, i + 5) != "time="@) by {
                if line@.subrange(i as int, i + 5) == "time="@ {
                    assert(line@.subrange(i as int, i + 5)[0] == line@[i as int]);
                    assert(line@.subrange(i as int, i + 5)[1] == line@[i + 1]);
                    assert(line@.subrange(i as int, i + 5)[2] == line@[i + 2]);
                    assert(line@.subrange(i as int, i + 5)[3] == line@[i + 3]);
                    assert(line@.subrange(i as int, i + 5)[4] == line@[i + 4]);
                }
            }
        }
        i = i + 1;
    }
    proof {
        lemma_find_sub(line@, "time="@);
        let fs = find_sub(line@, "time="@);
        if fs >= 0 {
            assert(line@.subrange(fs, fs + 5) == "time="@);
        }
    }
    None
}

impl JobState {
    /// Appends one line, with its newline, to the log.
    pub fn log_line(&mut self, line: &str)
        ensures
            final(self).log@ == old(self).log@ + line@ + "\n"@,
            final(self).running == old(self).running,
            final(self).progress_permille == old(self).progress_permille,
            final(self).child_present == old(self).child_present,
    {
        self.log.append(line);
        self.log.append("\n");
    }

    /// A copy of the log, for the presentation layer.
    pub fn get_log(&self) -> (r: String)
        ensures
            r@ == self.log@,
    {
        self.log.clone()
    }

    /// The progress fraction in thousandths, for the presentation layer.
    pub fn get_progress(&self) -> (r: u32)
        ensures
            r == self.progress_permille,
    {
        self.progress_permille
    }

    /// Whether a job is underway, for the presentation layer.
    pub fn is_running(&self) -> (r: bool)
        ensures
            r == self.running,
    {
        self.running
    }

    /// The validation in front of a start request.  It passes only when
    /// no job is running, an input is named, and that input exists; any
    /// refusal is logged and changes nothing else.  In particular a
    /// request made while a job runs is rejected with the running
    /// job's state untouched.
    pub fn start_validate(&mut self, cfg: &EncodingConfig, input_exists: bool) -> (ok: bool)
        ensures
            final(self).running == old(self).running,
            final(self).progress_permille == old(self).progress_permille,
            final(self).child_present == old(self).child_present,
            ok == (!old(self).running && cfg.input_path@.len() > 0 && input_exists),
            old(self).running ==> final(self).log@ == old(self).log@
                + "A process is already running. Please stop it first.\n"@,
            !old(self).running && cfg.input_path@.len() == 0 ==> final(self).log@ == old(
                self,
            ).log@ + "Error: No input file selected.\n"@,
            !old(self).running && cfg.input_path@.len() > 0 && !input_exists ==> final(self).log@
                == old(self).log@ + "Error: Input file does not exist: "@ + cfg.input_path@
                + "\n"@,
            ok ==> final(self).log@ == old(self).log@,
    {
        if self.running {
            self.log.append("A process is already running. Please stop it first.\n");
            return false;
        }
        if cfg.input_path.as_str().unicode_len() == 0 {
            self.log.append("Error: No input file selected.\n");
            return false;
        }
        if !input_exists {
            self.log.append("Error: Input file does not exist: ");
            self.log.append(cfg.input_path.as_str());
            self.log.append("\n");
            return false;
        }
        true
    }

    /// The launch step, after validation and output resolution.  With
    /// no destination directory it refuses and logs.  Otherwise it
    /// clears the log, zeroes progress, marks the job running with no
    /// stale handle, logs the destination, and hands back the frozen
    /// argument vector to spawn.
    pub fn launch(
        &mut self,
        cfg: &EncodingConfig,
        parent_exists: bool,
        existing: &Vec<String>,
    ) -> (r: StartOutcome)
        requires
            existing@.len() < 0xFFFF_FFFF_FFFF_FFFFu64,
        ensures
            !parent_exists ==> match r {
                StartOutcome::Rejected => !final(self).running && final(self).progress_permille
                    == old(self).progress_permille
                    && final(self).child_present == old(self).child_present
                    && final(self).log@ == old(self).log@
                    + "Error: Output directory does not exist: "@ + dir_of(cfg.output_path@)
                    + "\n"@,
                StartOutcome::Spawn(_) => false,
            },
            parent_exists ==> match r {
                StartOutcome::Spawn(args) => final(self).running
                    && final(self).progress_permille == 0
                    && !final(self).child_present && final(self).log@
                    == "Outputting to: "@ + cfg.output_path@ + "\n"@ && exists|out: Seq<char>|
                    #[trigger] cfg.resolved_output_ok(existing@, out) && toks(args@)
                        == spec_build(*cfg, out),
                StartOutcome::Rejected => false,
            },
    {
        if !parent_exists {
            let (dir, _stem) = crate::ffmpeg_utils::split_dir_stem(&cfg.output_path);
            self.log.append("Error: Output directory does not exist: ");
            self.log.append(dir.as_str());
            self.log.append("\n");
            self.running = false;
            return StartOutcome::Rejected;
        }
        self.running = true;
        self.progress_permille = 0;
        self.log = String::new();
        self.log.append("Outputting to: ");
        self.log.append(cfg.output_path.as_str());
        self.log.append("\n");
        self.child_present = false;
        let args = cfg.build_command(existing);
        StartOutcome::Spawn(args)
    }

    /// Marks the spawned process handle live.
    pub fn on_spawned(&mut self)
        ensures
            final(self).child_present,
            final(self).running == old(self).running,
            final(self).progress_permille == old(self).progress_permille,
            final(self).log == old(self).log,
    {
        self.child_present = true;
    }

    /// Applies one line of the diagnostic stream: the line is logged
    /// verbatim, and if it carries a `time=` marker the progress is
    /// raised to the clamped fraction it names.  Progress never falls
    /// and never leaves `[0, 1000]`.
    pub fn on_line(&mut self, line: &str, duration_ms: u64)
        requires
            duration_ms >= 1,
            old(self).progress_permille <= 1000,
        ensures
            final(self).running == old(self).running,
            final(self).child_present == old(self).child_present,
            final(self).log@ == old(self).log@ + line@ + "\n"@,
            final(self).progress_permille == spec_line_progress(
                old(self).progress_permille,
                line@,
                duration_ms,
            ),
            old(self).progress_permille <= final(self).progress_permille <= 1000,
    {
        self.log.append(line);
        self.log.append("\n");
        let len = line.unicode_len();
        match find_time(line) {
            None => {},
            Some(i) => {
                let a = skip_ws_from(line, i + 5);
                proof {
                    let rest = line@.skip(i + 5);
                    assert(a - (i + 5) == first_non_ws(rest));
                }
                if a == len {
                    // marker with nothing after it: nothing to raise
                } else {
                    let b = find_ws_from(line, a);
                    let t = line.substring_char(a, b);
                    let tms = parse_timecode(t);
                    proof {
                        let rest = line@.skip(i + 5);
                        let r2 = rest.skip(a - (i + 5));
                        assert(r2 =~= line@.skip(a as int));
                        assert(b - a == first_ws(line@.skip(a as int)));
                        assert(t@ =~= r2.take(first_ws(r2)));
                    }
                    let p = progress_permille_of(tms, duration_ms);
                    if p > self.progress_permille {
                        self.progress_permille = p;
                    }
                }
            },
        }
    }

    /// Applies the process's exit: the status line and the outcome are
    /// logged, the handle is gone, the job stops, and progress jumps to
    /// complete whatever the exit status was.
    pub fn on_exit(&mut self, success: bool, status_text: &str, output_path: &str)
        ensures
            !final(self).running,
            final(self).progress_permille == 1000,
            !final(self).child_present,
            final(self).log@ == old(self).log@ + "FFmpeg finished with status: "@ + status_text@
                + "\n"@ + (if success {
                "Output successfully saved to "@ + output_path@ + "\n"@
            } else {
                "FFmpeg command failed.\n"@
            }),
    {
        self.log.append("FFmpeg finished with status: ");
        self.log.append(status_text);
        self.log.append("\n");
        if success {
            self.log.append("Output successfully saved to ");
            self.log.append(output_path);
            self.log.append("\n");
        } else {
            self.log.append("FFmpeg command failed.\n");
        }
        self.running = false;
        self.progress_permille = 1000;
        self.child_present = false;
    }

    /// Applies a failure to spawn the process at all: logged, never
    /// fatal to the supervisor, and the job is not left running.
    pub fn on_spawn_error(&mut self, err_text: &str)
        ensures
            !final(self).running,
            final(self).progress_permille == 0,
            !final(self).child_present,
            final(self).log@ == old(self).log@ + "Error: failed to launch ffmpeg: "@ + err_text@
                + "\n"@,
    {
        self.log.append("Error: failed to launch ffmpeg: ");
        self.log.append(err_text);
        self.log.append("\n");
        self.running = false;
        self.progress_permille = 0;
        self.child_present = false;
    }

    /// A cancel request.  The job is marked not running at once.  With
    /// no live process this is a logged no-op that also resets the
    /// progress; with one, the caller is told to kill it and report
    /// back through `on_kill_result`.
    pub fn cancel(&mut self) -> (r: CancelOutcome)
        ensures
            !final(self).running,
            !old(self).child_present ==> r == CancelOutcome::NoOp && !final(self).child_present
                && final(self).progress_permille == 0 && final(self).log@ == old(self).log@
                + "\nStopping FFmpeg process...\n"@ + "No active process to stop.\n"@,
            old(self).child_present ==> r == CancelOutcome::Kill && final(self).child_present
                && final(self).progress_permille == old(self).progress_permille
                && final(self).log@ == old(self).log@ + "\nStopping FFmpeg process...\n"@,
    {
        self.log.append("\nStopping FFmpeg process...\n");
        self.running = false;
        if !self.child_present {
            self.progress_permille = 0;
            self.log.append("No active process to stop.\n");
            CancelOutcome::NoOp
        } else {
            CancelOutcome::Kill
        }
    }

    /// Applies the result of killing the process: the handle is gone
    /// and progress resets whatever happened; a refusal of the kill is
    /// logged but does not resurrect the job.
    pub fn on_kill_result(&mut self, ok: bool, err_text: &str)
        ensures
            final(self).running == old(self).running,
            !final(self).child_present,
            final(self).progress_permille == 0,
            ok ==> final(self).log@ == old(self).log@ + "Process terminated.\n"@,
            !ok ==> final(self).log@ == old(self).log@ + "Error killing process: "@ + err_text@
                + "\n"@ + "No active process to stop.\n"@,
    {
        if ok {
            self.log.append("Process terminated.\n");
        } else {
            self.log.append("Error killing process: ");
            self.log.append(err_text);
            self.log.append("\n");
            self.log.append("No active process to stop.\n");
        }
        self.child_present = false;
        self.progress_permille = 0;
    }
}

} // verus!
