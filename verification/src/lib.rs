//! Verified core of a GUI front-end for an external media transcoder.
//!
//! The library builds the transcoder's argument vector from a configuration
//! snapshot, derives unique output paths, parses timecodes and probe output,
//! and drives the job state machine.  All I/O (spawning the transcoder,
//! probing files, reading its diagnostic stream) lives outside the library,
//! which only computes on plain values handed in.

pub mod enums;
pub mod numfmt;
pub mod strutil;
pub mod ffmpeg_utils;
pub mod config;
pub mod laws;
pub mod probe;
pub mod job;
