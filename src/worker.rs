//! The course of one unit through opening, scanning, gain computation and
//! finishing, as a state machine: the caller performs each step and reports
//! whether it succeeded.
use vstd::prelude::*;

verus! {

/// The stages of a unit, in their order.
#[derive(Debug, Clone, Copy, PartialEq, Eq, Structural)]
pub enum Phase {
    /// Open each file for decoding and tagging.
    Open,
    /// Decode each file and feed the measurement engines.
    Seed,
    /// Compute the gain of each track.
    TrackGain,
    /// Compute the gain of the album, with its clip check.
    AlbumGain,
    /// Compute the dynamic-range score of the album.
    AlbumDr,
    /// Finish each file: clip check of its track gain, album values, and
    /// tags written when asked for.
    Finish,
    /// Every step succeeded: the unit is reported.
    Done,
    /// A step failed: the unit is reported as failed, nothing more is done.
    Failed,
}

/// What the caller is to do next.
#[derive(Debug, Clone, Copy, PartialEq, Eq, Structural)]
pub enum Step {
    Open(usize),
    Seed(usize),
    TrackGain(usize),
    AlbumGain,
    AlbumDr,
    Finish(usize),
    Report,
    Abort,
}

/// One unit in progress.
#[derive(Debug, Clone, Copy, PartialEq, Eq, Structural)]
pub struct UnitJob {
    /// Number of files of the unit.
    pub files: usize,
    /// Compute ReplayGain values.
    pub rg: bool,
    /// Compute dynamic-range scores.
    pub dr: bool,
    /// Compute album values.
    pub album: bool,
    pub phase: Phase,
    /// The file the current stage is at.
    pub index: usize,
    /// Number of files scanned without failure.
    pub scanned: usize,
}

pub open spec fn per_file(p: Phase) -> bool {
    p == Phase::Open || p == Phase::Seed || p == Phase::TrackGain || p == Phase::Finish
}

/// The stage that follows `p`, skipping those that the options turn off.
pub open spec fn next_phase(j: UnitJob, p: Phase) -> Phase {
    match p {
        Phase::Open => Phase::Seed,
        Phase::Seed => if j.rg {
            Phase::TrackGain
        } else if j.album && j.dr {
            Phase::AlbumDr
        } else {
            Phase::Finish
        },
        Phase::TrackGain => if j.album {
            Phase::AlbumGain
        } else {
            Phase::Finish
        },
        Phase::AlbumGain => if j.dr {
            Phase::AlbumDr
        } else {
            Phase::Finish
        },
        Phase::AlbumDr => Phase::Finish,
        Phase::Finish => Phase::Done,
        Phase::Done => Phase::Done,
        Phase::Failed => Phase::Failed,
    }
}

pub open spec fn step_of(j: UnitJob) -> Step {
    match j.phase {
        Phase::Open => Step::Open(j.index),
        Phase::Seed => Step::Seed(j.index),
        Phase::TrackGain => Step::TrackGain(j.index),
        Phase::AlbumGain => Step::AlbumGain,
        Phase::AlbumDr => Step::AlbumDr,
        Phase::Finish => Step::Finish(j.index),
        Phase::Done => Step::Report,
        Phase::Failed => Step::Abort,
    }
}

/// The job after its current step succeeded (`ok`) or failed.
pub open spec fn advanced(j: UnitJob, ok: bool) -> UnitJob {
    if j.phase == Phase::Done || j.phase == Phase::Failed {
        j
    } else if !ok {
        UnitJob { phase: Phase::Failed, ..j }
    } else {
        let scanned: int = if j.phase == Phase::Seed {
            j.scanned + 1
        } else {
            j.scanned as int
        };
        if per_file(j.phase) && j.index + 1 < j.files {
            UnitJob { index: (j.index + 1) as usize, scanned: scanned as usize, ..j }
        } else {
            UnitJob { phase: next_phase(j, j.phase), index: 0, scanned: scanned as usize, ..j }
        }
    }
}

impl UnitJob {
    /// The job's fields agree with its stage: every file was scanned once
    /// the scan stage is over.
    pub open spec fn wf(&self) -> bool {
        &&& self.files >= 1
        &&& self.index < self.files
        &&& (!per_file(self.phase) && self.phase != Phase::Failed ==> self.index == 0)
        &&& (self.phase == Phase::AlbumGain ==> self.rg && self.album)
        &&& (self.phase == Phase::AlbumDr ==> self.dr && self.album)
        &&& (self.phase == Phase::TrackGain ==> self.rg)
        &&& match self.phase {
            Phase::Open => self.scanned == 0,
            Phase::Seed => self.scanned == self.index,
            Phase::Failed => self.scanned <= self.files,
            _ => self.scanned == self.files,
        }
    }

    /// A job for a unit of `files` files, at its first step.
    pub fn new(files: usize, rg: bool, dr: bool, album: bool) -> (r: UnitJob)
        requires
            files >= 1,
        ensures
            r.wf(),
            r == (UnitJob { files, rg, dr, album, phase: Phase::Open, index: 0, scanned: 0 }),
    {
        UnitJob { files, rg, dr, album, phase: Phase::Open, index: 0, scanned: 0 }
    }

    /// The step to perform now.
    pub fn next_step(&self) -> (r: Step)
        ensures
            r == step_of(*self),
    {
        match self.phase {
            Phase::Open => Step::Open(self.index),
            Phase::Seed => Step::Seed(self.index),
            Phase::TrackGain => Step::TrackGain(self.index),
            Phase::AlbumGain => Step::AlbumGain,
            Phase::AlbumDr => Step::AlbumDr,
            Phase::Finish => Step::Finish(self.index),
            Phase::Done => Step::Report,
            Phase::Failed => Step::Abort,
        }
    }

    /// Records whether the current step succeeded and moves to the next.
    pub fn advance(&mut self, ok: bool)
        requires
            old(self).wf(),
        ensures
            *final(self) == advanced(*old(self), ok),
            final(self).wf(),
    {
        proof {
            lemma_unit_all_or_nothing(*self, ok);
        }
        if self.phase == Phase::Done || self.phase == Phase::Failed {
            return;
        }
        if !ok {
            self.phase = Phase::Failed;
            return;
        }
        if self.phase == Phase::Seed {
            self.scanned = self.scanned + 1;
        }
        let per = self.phase == Phase::Open || self.phase == Phase::Seed || self.phase
            == Phase::TrackGain || self.phase == Phase::Finish;
        if per && self.index + 1 < self.files {
            self.index = self.index + 1;
        } else {
            self.phase = self.following();
            self.index = 0;
        }
    }

    fn following(&self) -> (r: Phase)
        ensures
            r == next_phase(*self, self.phase),
    {
        match self.phase {
            Phase::Open => Phase::Seed,
            Phase::Seed => if self.rg {
                Phase::TrackGain
            } else if self.album && self.dr {
                Phase::AlbumDr
            } else {
                Phase::Finish
            },
            Phase::TrackGain => if self.album {
                Phase::AlbumGain
            } else {
                Phase::Finish
            },
            Phase::AlbumGain => if self.dr {
                Phase::AlbumDr
            } else {
                Phase::Finish
            },
            Phase::AlbumDr => Phase::Finish,
            Phase::Finish => Phase::Done,
            Phase::Done => Phase::Done,
            Phase::Failed => Phase::Failed,
        }
    }
}

/// A unit is all or nothing: its files are finished (tags written) only
/// once every one of them was scanned, a failed step ends the unit at once,
/// and a failed unit does nothing more. Each unit has a job of its own, so a
/// failure touches no other unit.
pub proof fn lemma_unit_all_or_nothing(j: UnitJob, ok: bool)
    requires
        j.wf(),
    ensures
        advanced(j, ok).wf(),
        step_of(j) is Finish ==> j.scanned == j.files,
        !ok && j.phase != Phase::Done ==> advanced(j, ok).phase == Phase::Failed,
        j.phase == Phase::Failed ==> advanced(j, ok) == j && step_of(advanced(j, ok)) is Abort,
{
}

} // verus!
