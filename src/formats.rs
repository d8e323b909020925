//! Audio formats known by extension, with the arguments that the external
//! loudgain program takes for each.
use vstd::prelude::*;

use crate::walker::{eq_ignore_case, matches_word};

verus! {

#[derive(Debug, Clone, Copy, PartialEq, Eq)]
pub enum Formats {
    Flac,
    Opus,
    Mp3,
    Ogg,
    Oga,
    Spx,
    Mp2,
    M4a,
    Wma,
    Asf,
    Wav,
    Aif,
    Aiff,
    Wv,
    Ape,
}

pub open spec fn format_of_ext(s: Seq<char>) -> Option<Formats> {
    if eq_ignore_case(s, "flac"@) {
        Some(Formats::Flac)
    } else if eq_ignore_case(s, "ogg"@) {
        Some(Formats::Ogg)
    } else if eq_ignore_case(s, "oga"@) {
        Some(Formats::Oga)
    } else if eq_ignore_case(s, "spx"@) {
        Some(Formats::Spx)
    } else if eq_ignore_case(s, "opus"@) {
        Some(Formats::Opus)
    } else if eq_ignore_case(s, "mp2"@) {
        Some(Formats::Mp2)
    } else if eq_ignore_case(s, "mp3"@) {
        Some(Formats::Mp3)
    } else if eq_ignore_case(s, "m4a"@) {
        Some(Formats::M4a)
    } else if eq_ignore_case(s, "wma"@) {
        Some(Formats::Wma)
    } else if eq_ignore_case(s, "asf"@) {
        Some(Formats::Asf)
    } else if eq_ignore_case(s, "wav"@) {
        Some(Formats::Wav)
    } else if eq_ignore_case(s, "aif"@) {
        Some(Formats::Aif)
    } else if eq_ignore_case(s, "aiff"@) {
        Some(Formats::Aiff)
    } else if eq_ignore_case(s, "wv"@) {
        Some(Formats::Wv)
    } else if eq_ignore_case(s, "ape"@) {
        Some(Formats::Ape)
    } else {
        None
    }
}

pub open spec fn args_of(f: Formats) -> Seq<&'static str> {
    match f {
        Formats::Flac | Formats::Opus | Formats::Ogg | Formats::Oga | Formats::Spx => seq![
            "-k",
            "-s",
            "e",
        ],
        Formats::Mp3 | Formats::Mp2 => seq!["-I", "3", "-S", "-L", "-k", "-s", "e"],
        Formats::M4a | Formats::Wma | Formats::Asf => seq!["-L", "-k", "-s", "e"],
        Formats::Wav | Formats::Aif | Formats::Aiff => seq!["-I", "3", "-L", "-k", "-s", "e"],
        Formats::Wv | Formats::Ape => seq!["-S", "-k", "-s", "e"],
    }
}

impl Formats {
    /// The format of a file extension, without regard to ASCII case.
    pub fn from_ext(s: &str) -> (r: Option<Formats>)
        ensures
            r == format_of_ext(s@),
    {
        if matches_word(s, "flac") {
            Some(Formats::Flac)
        } else if matches_word(s, "ogg") {
            Some(Formats::Ogg)
        } else if matches_word(s, "oga") {
            Some(Formats::Oga)
        } else if matches_word(s, "spx") {
            Some(Formats::Spx)
        } else if matches_word(s, "opus") {
            Some(Formats::Opus)
        } else if matches_word(s, "mp2") {
            Some(Formats::Mp2)
        } else if matches_word(s, "mp3") {
            Some(Formats::Mp3)
        } else if matches_word(s, "m4a") {
            Some(Formats::M4a)
        } else if matches_word(s, "wma") {
            Some(Formats::Wma)
        } else if matches_word(s, "asf") {
            Some(Formats::Asf)
        } else if matches_word(s, "wav") {
            Some(Formats::Wav)
        } else if matches_word(s, "aif") {
            Some(Formats::Aif)
        } else if matches_word(s, "aiff") {
            Some(Formats::Aiff)
        } else if matches_word(s, "wv") {
            Some(Formats::Wv)
        } else if matches_word(s, "ape") {
            Some(Formats::Ape)
        } else {
            None
        }
    }

    /// The arguments that loudgain takes for files of this format.
    pub fn args(&self) -> (r: Vec<&'static str>)
        ensures
            r@ == args_of(*self),
    {
        let r = match self {
            Formats::Flac | Formats::Opus | Formats::Ogg | Formats::Oga | Formats::Spx => vec![
                "-k",
                "-s",
                "e",
            ],
            Formats::Mp3 | Formats::Mp2 => vec!["-I", "3", "-S", "-L", "-k", "-s", "e"],
            Formats::M4a | Formats::Wma | Formats::Asf => vec!["-L", "-k", "-s", "e"],
            Formats::Wav | Formats::Aif | Formats::Aiff => vec!["-I", "3", "-L", "-k", "-s", "e"],
            Formats::Wv | Formats::Ape => vec!["-S", "-k", "-s", "e"],
        };
        assert(r@ =~= args_of(*self));
        r
    }
}

} // verus!
