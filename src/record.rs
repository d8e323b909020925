//! Records of a loudgain-style report.
use vstd::prelude::*;

use crate::walker::{file_name, FsPath, PathPart};

verus! {

/// Whom a record is about: the album, or one track.
#[derive(Debug)]
pub enum Aile {
    Album,
    Track(FsPath),
}

impl Aile {
    /// The path of the track, if the record is about one.
    pub fn maybe_path(&self) -> (r: Option<&FsPath>)
        ensures
            match *self {
                Aile::Album => r is None,
                Aile::Track(p) => r == Some(&p),
            },
    {
        match self {
            Aile::Album => None,
            Aile::Track(p) => Some(p),
        }
    }
}

/// Two tracks are the same when their file names are; the album is the
/// album.
pub open spec fn same_aile(a: Aile, b: Aile) -> bool {
    match (a, b) {
        (Aile::Track(x), Aile::Track(y)) => file_name(x@) == file_name(y@),
        (Aile::Album, Aile::Album) => true,
        _ => false,
    }
}

fn last_name(p: &FsPath) -> (r: Option<&String>)
    ensures
        match file_name(p@) {
            Some(n) => r is Some && r->0@ == n,
            None => r is None,
        },
{
    let n = p.parts.len();
    if n == 0 {
        return None;
    }
    match &p.parts[n - 1] {
        PathPart::Normal(s) => Some(s),
        _ => None,
    }
}

impl PartialEq for Aile {
    fn eq(&self, other: &Aile) -> (r: bool) {
        match (self, other) {
            (Aile::Track(x), Aile::Track(y)) => {
                match (last_name(x), last_name(y)) {
                    (Some(a), Some(b)) => *a == *b,
                    (None, None) => true,
                    _ => false,
                }
            },
            (Aile::Album, Aile::Album) => true,
            _ => false,
        }
    }
}

impl vstd::std_specs::cmp::PartialEqSpecImpl for Aile {
    open spec fn obeys_eq_spec() -> bool {
        true
    }

    open spec fn eq_spec(&self, other: &Aile) -> bool {
        same_aile(*self, *other)
    }
}

/// `Y` for true, `N` for false.
pub fn yn(b: bool) -> (r: char)
    ensures
        r == (if b { 'Y' } else { 'N' }),
{
    if b {
        'Y'
    } else {
        'N'
    }
}

/// Reads a yes/no field by its first character: `Y` or `y` is true, `N`
/// or `n` is false; anything else, or an empty field, is an error.
pub fn from_yn(s: &str) -> (r: Result<bool, YnError>)
    ensures
        s@.len() == 0 ==> r == Err::<bool, YnError>(YnError::Empty),
        s@.len() > 0 ==> r == (if s@[0] == 'Y' || s@[0] == 'y' {
            Ok::<bool, YnError>(true)
        } else if s@[0] == 'N' || s@[0] == 'n' {
            Ok::<bool, YnError>(false)
        } else {
            Err::<bool, YnError>(YnError::Invalid)
        }),
{
    if s.unicode_len() == 0 {
        return Err(YnError::Empty);
    }
    let c = s.get_char(0);
    if c == 'Y' || c == 'y' {
        Ok(true)
    } else if c == 'N' || c == 'n' {
        Ok(false)
    } else {
        Err(YnError::Invalid)
    }
}

/// Why a yes/no field could not be read.
#[derive(Debug, Clone, Copy, PartialEq, Eq, Structural)]
pub enum YnError {
    /// The field is empty.
    Empty,
    /// The field starts with neither `Y` nor `N`.
    Invalid,
}

} // verus!
