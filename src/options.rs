//! Option values shared by the programs built on the library.
use vstd::prelude::*;

use crate::walker::{eq_ignore_case, matches_word};

verus! {

/// How progress and results are shown.
#[derive(Debug, PartialEq, Eq, Clone, Copy)]
pub enum Output {
    /// Progress bars for every unit.
    Tui,
    /// Plain printing, no progress bars.
    PrettyPrint,
    /// Output meant for a pipe.
    Log,
}

impl Output {
    /// Whether a user can answer the program.
    pub fn is_dynamic(&self) -> (r: bool)
        ensures
            r == (*self is Tui || *self is PrettyPrint),
    {
        match self {
            Output::Tui | Output::PrettyPrint => true,
            Output::Log => false,
        }
    }

    pub fn is_tui(&self) -> (r: bool)
        ensures
            r == (*self is Tui),
    {
        matches!(self, Output::Tui)
    }

    pub fn is_pp(&self) -> (r: bool)
        ensures
            r == (*self is PrettyPrint),
    {
        matches!(self, Output::PrettyPrint)
    }

    pub fn is_log(&self) -> (r: bool)
        ensures
            r == (*self is Log),
    {
        matches!(self, Output::Log)
    }

    /// Reads an output mode from its name, without regard to ASCII case:
    /// `t`, `tui`, `ui`; `p`, `pp`, `sexy`, `prettyprint`; `l`, `log`.
    pub fn from_name(s: &str) -> (r: Option<Output>)
        ensures
            r == output_named(s@),
    {
        if matches_word(s, "t") || matches_word(s, "tui") || matches_word(s, "ui") {
            Some(Output::Tui)
        } else if matches_word(s, "p") || matches_word(s, "pp") || matches_word(s, "sexy")
            || matches_word(s, "prettyprint") {
            Some(Output::PrettyPrint)
        } else if matches_word(s, "l") || matches_word(s, "log") {
            Some(Output::Log)
        } else {
            None
        }
    }
}

pub open spec fn output_named(s: Seq<char>) -> Option<Output> {
    if eq_ignore_case(s, "t"@) || eq_ignore_case(s, "tui"@) || eq_ignore_case(s, "ui"@) {
        Some(Output::Tui)
    } else if eq_ignore_case(s, "p"@) || eq_ignore_case(s, "pp"@) || eq_ignore_case(s, "sexy"@)
        || eq_ignore_case(s, "prettyprint"@) {
        Some(Output::PrettyPrint)
    } else if eq_ignore_case(s, "l"@) || eq_ignore_case(s, "log"@) {
        Some(Output::Log)
    } else {
        None
    }
}

impl Default for Output {
    fn default() -> (r: Output)
        ensures
            r == Output::Tui,
    {
        Output::Tui
    }
}

/// The ID3v2 version of tags written to MP2, MP3, WAV and AIFF files.
#[derive(Debug, PartialEq, Eq, Clone, Copy)]
pub enum Id3v2version {
    V3,
    V4,
}

impl Default for Id3v2version {
    fn default() -> (r: Id3v2version)
        ensures
            r == Id3v2version::V4,
    {
        Id3v2version::V4
    }
}

impl Id3v2version {
    /// The version number: 3 or 4.
    pub fn number(&self) -> (r: i32)
        ensures
            r == (if *self is V3 { 3i32 } else { 4i32 }),
    {
        match self {
            Id3v2version::V3 => 3,
            Id3v2version::V4 => 4,
        }
    }

    /// Reads a version from the first character of `s`: `3` or `4`.
    pub fn from_text(s: &str) -> (r: Option<Id3v2version>)
        ensures
            s@.len() == 0 ==> r is None,
            s@.len() > 0 ==> r == (if s@[0] == '3' {
                Some(Id3v2version::V3)
            } else if s@[0] == '4' {
                Some(Id3v2version::V4)
            } else {
                None
            }),
    {
        if s.unicode_len() == 0 {
            return None;
        }
        let c = s.get_char(0);
        if c == '3' {
            Some(Id3v2version::V3)
        } else if c == '4' {
            Some(Id3v2version::V4)
        } else {
            None
        }
    }
}

/// Options of the command that shows help.
pub struct HelpOpts {
    /// The command whose help is asked for, if any.
    pub free: Vec<String>,
}

/// Options of the command that deletes computed tags.
pub struct DeleteOpts {
    /// Paths to walk: folders are walked, files are singles.
    pub paths: Vec<String>,
    /// Largest number of parallel jobs.
    pub jobs: usize,
    /// Do not ask for confirmation.
    pub yes: bool,
    pub output: Output,
    /// Strip tag types other than the main one of the format.
    pub strip_uncommon_tags: bool,
    pub id3v2version: Id3v2version,
}

/// How a loudgain-style run prints its records.
#[derive(Debug, PartialEq, Eq, Clone, Copy)]
pub enum OutputMode {
    /// Something human-readable.
    Human,
    /// An mp3gain-compatible list.
    Old,
    /// A tab-separated list of all values.
    New,
}

impl OutputMode {
    pub fn is_human(&self) -> (r: bool)
        ensures
            r == (*self is Human),
    {
        matches!(self, OutputMode::Human)
    }
}

/// What a loudgain-style run does to the files.
#[derive(Debug, PartialEq, Eq)]
pub enum Mode {
    /// Write tags, with the extended ones (reference, ranges).
    WriteExtended,
    /// Write ReplayGain 2.0 tags.
    Write,
    /// Write nothing.
    Noop,
    /// Delete ReplayGain tags.
    Delete,
}

impl Default for Mode {
    fn default() -> (r: Mode)
        ensures
            r == Mode::Noop,
    {
        Mode::Noop
    }
}

/// How tags are written by the tag writer.
pub struct WriteOptions {
    /// Also write the reference and range tags.
    pub extended: bool,
    /// The unit written after values: `dB` or `LU`.
    pub unit: String,
    /// Lower-case tag names where the format allows it.
    pub lowercase: bool,
    /// Write the tags commonly used for Opus besides the standard ones.
    pub non_standard_opus: bool,
}

} // verus!
