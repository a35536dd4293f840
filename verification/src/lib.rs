//! Terminal session recordings made from a script of inputs and outputs,
//! without a terminal session.
//!
//! A [`sequence::Sequence`] is the script: commands with what is typed and what
//! is printed, and the pacing they are played with. An
//! [`asciicast::Asciicast`] is the playback document that a player reads: a
//! header and timed events. `Asciicast::append_from` turns the one into the
//! other; [`recording`] says what the events are and proves that they run
//! forward in time. [`termsheets`] is a third form, pairs of input and output
//! without pacing.

use vstd::prelude::*;

pub mod asciicast;
pub mod cli;
pub mod error;
pub mod recording;
pub mod sequence;
pub mod termsheets;
pub mod text;
pub mod timings;

verus! {

/// Milliseconds in a second.
pub const MILLISECONDS_IN_A_SECOND: u64 = 1000;

/// How milliseconds are named to a person.
pub const MILLISECONDS_UNITS: &'static str = "ms";

/// How seconds are named to a person.
pub const SECONDS_UNITS: &'static str = "secs";

/// The environment variable that names the shell.
pub const SHELL_VAR_NAME: &'static str = "SHELL";

/// The environment variable that names the terminal.
pub const TERM_VAR_NAME: &'static str = "TERM";

} // verus!
