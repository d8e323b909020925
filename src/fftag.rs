//! Which tag layout a file gets, from its container and codec.
use vstd::prelude::*;

use crate::error::MetaError;

verus! {

/// A container, by its FFmpeg short name.
#[derive(Debug, PartialEq, Eq)]
pub enum AvContainer {
    MP3,
    FLAC,
    OGG,
    MP4,
    ASF,
    WAV,
    WV,
    AIFF,
    APE,
    /// Any other container, with its name.
    Unsupported(String),
}

/// The codecs that an Ogg container may hold.
#[derive(Debug, PartialEq, Eq)]
pub enum Codec {
    Opus,
    Vorbis,
    Flac,
    Speex,
    /// Any other codec, with its name.
    Other(String),
}

/// The tag layout written or cleared for a file.
#[derive(Debug, Clone, Copy, PartialEq, Eq, Structural)]
pub enum TagTarget {
    Mp3,
    Flac,
    OggOpus,
    /// Opus, with the non-standard tags commonly used besides the standard
    /// ones.
    OggOpusNonStandard,
    OggVorbis,
    OggFlac,
    OggSpeex,
    Mp4,
    Asf,
    Wav,
    WavPack,
    Aiff,
    Ape,
}

/// Tests two strings for equality.
fn same_text(a: &str, b: &str) -> (r: bool)
    ensures
        r == (a@ == b@),
{
    let n = a.unicode_len();
    if n != b.unicode_len() {
        return false;
    }
    let mut i: usize = 0;
    while i < n
        invariant
            i <= n,
            n == a@.len(),
            n == b@.len(),
            a@.take(i as int) == b@.take(i as int),
        decreases n - i,
    {
        if a.get_char(i) != b.get_char(i) {
            return false;
        }
        assert(a@.take(i + 1) =~= a@.take(i as int).push(a@[i as int]));
        assert(b@.take(i + 1) =~= b@.take(i as int).push(b@[i as int]));
        i = i + 1;
    }
    assert(a@.take(n as int) =~= a@);
    assert(b@.take(n as int) =~= b@);
    true
}

pub open spec fn container_named(s: Seq<char>) -> Option<AvContainer> {
    if s == "mp3"@ {
        Some(AvContainer::MP3)
    } else if s == "flac"@ {
        Some(AvContainer::FLAC)
    } else if s == "ogg"@ {
        Some(AvContainer::OGG)
    } else if s == "mov,mp4,m4a,3gp,3g2,mj2"@ {
        Some(AvContainer::MP4)
    } else if s == "asf"@ {
        Some(AvContainer::ASF)
    } else if s == "wav"@ {
        Some(AvContainer::WAV)
    } else if s == "wv"@ {
        Some(AvContainer::WV)
    } else if s == "aiff"@ {
        Some(AvContainer::AIFF)
    } else if s == "ape"@ {
        Some(AvContainer::APE)
    } else {
        None
    }
}

impl AvContainer {
    /// The container with this FFmpeg short name; any other name is kept
    /// as unsupported.
    pub fn new(s: &str) -> (r: AvContainer)
        ensures
            match container_named(s@) {
                Some(c) => r == c,
                None => r is Unsupported && r->Unsupported_0@ == s@,
            },
    {
        if same_text(s, "mp3") {
            AvContainer::MP3
        } else if same_text(s, "flac") {
            AvContainer::FLAC
        } else if same_text(s, "ogg") {
            AvContainer::OGG
        } else if same_text(s, "mov,mp4,m4a,3gp,3g2,mj2") {
            AvContainer::MP4
        } else if same_text(s, "asf") {
            AvContainer::ASF
        } else if same_text(s, "wav") {
            AvContainer::WAV
        } else if same_text(s, "wv") {
            AvContainer::WV
        } else if same_text(s, "aiff") {
            AvContainer::AIFF
        } else if same_text(s, "ape") {
            AvContainer::APE
        } else {
            AvContainer::Unsupported(s.to_owned())
        }
    }
}

/// The layout for a container and codec, when writing (`write`) or
/// clearing tags.
pub open spec fn target_of(c: AvContainer, codec: Codec, write: bool, non_standard_opus: bool) -> Option<TagTarget> {
    match c {
        AvContainer::MP3 => Some(TagTarget::Mp3),
        AvContainer::FLAC => Some(TagTarget::Flac),
        AvContainer::OGG => match codec {
            Codec::Opus => if write && non_standard_opus {
                Some(TagTarget::OggOpusNonStandard)
            } else {
                Some(TagTarget::OggOpus)
            },
            Codec::Vorbis => Some(TagTarget::OggVorbis),
            Codec::Flac => Some(TagTarget::OggFlac),
            Codec::Speex => Some(TagTarget::OggSpeex),
            Codec::Other(_) => None,
        },
        AvContainer::MP4 => Some(TagTarget::Mp4),
        AvContainer::ASF => Some(TagTarget::Asf),
        AvContainer::WAV => Some(TagTarget::Wav),
        AvContainer::WV => Some(TagTarget::WavPack),
        AvContainer::AIFF => Some(TagTarget::Aiff),
        AvContainer::APE => Some(TagTarget::Ape),
        AvContainer::Unsupported(_) => None,
    }
}

/// Chooses the tag layout to write (`write`) or clear for a file. Writing
/// needs the track's gain (`has_track`); a container, or a codec inside Ogg,
/// without a layout is unsupported, named in the error.
pub fn tag_target(
    container: &AvContainer,
    codec: &Codec,
    write: bool,
    has_track: bool,
    non_standard_opus: bool,
) -> (r: Result<TagTarget, MetaError>)
    ensures
        write && !has_track ==> r == Err::<TagTarget, MetaError>(MetaError::NotComputed),
        !(write && !has_track) ==> match target_of(*container, *codec, write, non_standard_opus) {
            Some(t) => r == Ok::<TagTarget, MetaError>(t),
            None => r is Err && r->Err_0 is Unsupported && (match *container {
                AvContainer::Unsupported(n) => r->Err_0->Unsupported_0@ == n@,
                _ => match *codec {
                    Codec::Other(n) => r->Err_0->Unsupported_0@ == n@,
                    _ => false,
                },
            }),
        },
{
    if write && !has_track {
        return Err(MetaError::NotComputed);
    }
    match container {
        AvContainer::MP3 => Ok(TagTarget::Mp3),
        AvContainer::FLAC => Ok(TagTarget::Flac),
        AvContainer::OGG => match codec {
            Codec::Opus => if write && non_standard_opus {
                Ok(TagTarget::OggOpusNonStandard)
            } else {
                Ok(TagTarget::OggOpus)
            },
            Codec::Vorbis => Ok(TagTarget::OggVorbis),
            Codec::Flac => Ok(TagTarget::OggFlac),
            Codec::Speex => Ok(TagTarget::OggSpeex),
            Codec::Other(n) => Err(MetaError::Unsupported(n.clone())),
        },
        AvContainer::MP4 => Ok(TagTarget::Mp4),
        AvContainer::ASF => Ok(TagTarget::Asf),
        AvContainer::WAV => Ok(TagTarget::Wav),
        AvContainer::WV => Ok(TagTarget::WavPack),
        AvContainer::AIFF => Ok(TagTarget::Aiff),
        AvContainer::APE => Ok(TagTarget::Ape),
        AvContainer::Unsupported(n) => Err(MetaError::Unsupported(n.clone())),
    }
}

} // verus!
