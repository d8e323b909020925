use mxc::error::{Error, MetaError, NError};
use mxc::fftag::{tag_target, AvContainer, Codec, TagTarget};
use mxc::formats::Formats;
use mxc::options::{Id3v2version, Mode, Output, OutputMode};
use mxc::record::{from_yn, yn, Aile, YnError};
use mxc::replay_gain::{clip_outcome, ClipOutcome};
use mxc::walker::{normalized, FsPath, PathPart};
use mxc::worker::{Phase, Step, UnitJob};

fn path(names: &[&str]) -> FsPath {
    FsPath {
        parts: names.iter().map(|n| PathPart::Normal(n.to_string())).collect(),
    }
}

/// Drives a job, failing the step `fail` (if any); returns every step taken.
fn drive(mut job: UnitJob, fail: Option<Step>) -> (UnitJob, Vec<Step>) {
    let mut steps = Vec::new();
    loop {
        let step = job.next_step();
        steps.push(step);
        if step == Step::Report || step == Step::Abort {
            return (job, steps);
        }
        job.advance(Some(step) != fail);
    }
}

#[test]
fn third_file_failing_fails_whole_album() {
    let (job, steps) = drive(UnitJob::new(5, true, false, true), Some(Step::Seed(2)));
    assert_eq!(job.phase, Phase::Failed);
    assert_eq!(job.index, 2);
    assert_eq!(job.scanned, 2);
    assert!(!steps.iter().any(|s| matches!(s, Step::Finish(_) | Step::AlbumGain)));
    assert_eq!(steps.last(), Some(&Step::Abort));
    // A failed job stays failed.
    let mut again = job;
    again.advance(true);
    assert_eq!(again, job);
}

#[test]
fn sibling_units_are_independent() {
    let (failed, _) = drive(UnitJob::new(5, true, false, true), Some(Step::Seed(2)));
    let (done, steps) = drive(UnitJob::new(2, true, false, true), None);
    assert_eq!(failed.phase, Phase::Failed);
    assert_eq!(done.phase, Phase::Done);
    assert_eq!(steps.iter().filter(|s| matches!(s, Step::Finish(_))).count(), 2);
}

#[test]
fn album_job_runs_every_stage_in_order() {
    let (job, steps) = drive(UnitJob::new(2, true, true, true), None);
    assert_eq!(job.phase, Phase::Done);
    assert_eq!(job.scanned, 2);
    assert_eq!(
        steps,
        vec![
            Step::Open(0),
            Step::Open(1),
            Step::Seed(0),
            Step::Seed(1),
            Step::TrackGain(0),
            Step::TrackGain(1),
            Step::AlbumGain,
            Step::AlbumDr,
            Step::Finish(0),
            Step::Finish(1),
            Step::Report,
        ]
    );
}

#[test]
fn job_skips_stages_turned_off() {
    let (_, steps) = drive(UnitJob::new(1, false, true, false), None);
    assert_eq!(
        steps,
        vec![Step::Open(0), Step::Seed(0), Step::Finish(0), Step::Report]
    );
    let (_, steps) = drive(UnitJob::new(1, false, true, true), None);
    assert_eq!(
        steps,
        vec![Step::Open(0), Step::Seed(0), Step::AlbumDr, Step::Finish(0), Step::Report]
    );
}

#[test]
fn failure_at_finish_stops_there() {
    let (job, steps) = drive(UnitJob::new(3, true, false, false), Some(Step::Finish(1)));
    assert_eq!(job.phase, Phase::Failed);
    assert!(!steps.contains(&Step::Finish(2)));
}

#[test]
fn clip_flags_never_both_set() {
    for exceeds in [false, true] {
        for prevent in [false, true] {
            let o = clip_outcome(exceeds, prevent);
            assert!(!(o.will_clip && o.clip_prevented));
        }
    }
    assert_eq!(
        clip_outcome(true, true),
        ClipOutcome { will_clip: false, clip_prevented: true }
    );
    assert_eq!(
        clip_outcome(true, false),
        ClipOutcome { will_clip: true, clip_prevented: false }
    );
    assert_eq!(
        clip_outcome(false, true),
        ClipOutcome { will_clip: false, clip_prevented: false }
    );
}

#[test]
fn output_modes() {
    assert_eq!(Output::from_name("TUI"), Some(Output::Tui));
    assert_eq!(Output::from_name("ui"), Some(Output::Tui));
    assert_eq!(Output::from_name("Sexy"), Some(Output::PrettyPrint));
    assert_eq!(Output::from_name("l"), Some(Output::Log));
    assert_eq!(Output::from_name("loud"), None);
    assert!(Output::Tui.is_dynamic() && Output::PrettyPrint.is_dynamic());
    assert!(!Output::Log.is_dynamic());
    assert!(Output::Tui.is_tui() && Output::PrettyPrint.is_pp() && Output::Log.is_log());
    assert!(!Output::Log.is_tui());
    assert_eq!(Output::default(), Output::Tui);
    assert!(OutputMode::Human.is_human());
    assert!(!OutputMode::New.is_human());
    assert_eq!(Mode::default(), Mode::Noop);
}

#[test]
fn id3v2_versions() {
    assert_eq!(Id3v2version::from_text("3"), Some(Id3v2version::V3));
    assert_eq!(Id3v2version::from_text("4.0"), Some(Id3v2version::V4));
    assert_eq!(Id3v2version::from_text("2"), None);
    assert_eq!(Id3v2version::from_text(""), None);
    assert_eq!(Id3v2version::default(), Id3v2version::V4);
    assert_eq!(Id3v2version::V3.number(), 3);
    assert_eq!(Id3v2version::V4.number(), 4);
}

#[test]
fn formats_and_arguments() {
    assert_eq!(Formats::from_ext("FLAC"), Some(Formats::Flac));
    assert_eq!(Formats::from_ext("aiff"), Some(Formats::Aiff));
    assert_eq!(Formats::from_ext("txt"), None);
    assert_eq!(Formats::Flac.args(), vec!["-k", "-s", "e"]);
    assert_eq!(Formats::Mp3.args(), vec!["-I", "3", "-S", "-L", "-k", "-s", "e"]);
    assert_eq!(Formats::Wav.args(), vec!["-I", "3", "-L", "-k", "-s", "e"]);
    assert_eq!(Formats::Wma.args(), vec!["-L", "-k", "-s", "e"]);
    assert_eq!(Formats::Ape.args(), vec!["-S", "-k", "-s", "e"]);
}

#[test]
fn errors_convert() {
    assert_eq!(Error::from(NError::IO("disk".to_string())), Error::IO("disk".to_string()));
    assert_eq!(
        Error::from(NError::Unsupported("xm".to_string())),
        Error::Unsupported("xm".to_string())
    );
    assert_eq!(
        Error::from_meta(MetaError::Write("a.flac".to_string())),
        Error::Internal("Couldn't write to: a.flac".to_string())
    );
    assert_eq!(Error::from_meta(MetaError::NotComputed), Error::NotComputed);
}

#[test]
fn records_compare_by_file_name() {
    let a = Aile::Track(path(&["x", "song.flac"]));
    let b = Aile::Track(path(&["y", "song.flac"]));
    let c = Aile::Track(path(&["x", "other.flac"]));
    assert!(a == b);
    assert!(a != c);
    assert!(Aile::Album == Aile::Album);
    assert!(Aile::Album != a);
    assert_eq!(a.maybe_path(), Some(&path(&["x", "song.flac"])));
    assert_eq!(Aile::Album.maybe_path(), None);
}

#[test]
fn containers_by_name() {
    assert_eq!(AvContainer::new("mp3"), AvContainer::MP3);
    assert_eq!(AvContainer::new("mov,mp4,m4a,3gp,3g2,mj2"), AvContainer::MP4);
    assert_eq!(AvContainer::new("aiff"), AvContainer::AIFF);
    assert_eq!(AvContainer::new("MP3"), AvContainer::Unsupported("MP3".to_string()));
    assert_eq!(AvContainer::new("mp4"), AvContainer::Unsupported("mp4".to_string()));
}

#[test]
fn tag_layouts() {
    let ogg = AvContainer::OGG;
    assert_eq!(tag_target(&ogg, &Codec::Opus, true, true, true), Ok(TagTarget::OggOpusNonStandard));
    assert_eq!(tag_target(&ogg, &Codec::Opus, true, true, false), Ok(TagTarget::OggOpus));
    assert_eq!(tag_target(&ogg, &Codec::Opus, false, false, true), Ok(TagTarget::OggOpus));
    assert_eq!(tag_target(&ogg, &Codec::Speex, true, true, false), Ok(TagTarget::OggSpeex));
    assert_eq!(
        tag_target(&ogg, &Codec::Other("theora".to_string()), false, false, false),
        Err(MetaError::Unsupported("theora".to_string()))
    );
    assert_eq!(
        tag_target(&AvContainer::new("matroska,webm"), &Codec::Flac, false, false, false),
        Err(MetaError::Unsupported("matroska,webm".to_string()))
    );
    assert_eq!(
        tag_target(&AvContainer::FLAC, &Codec::Flac, true, false, false),
        Err(MetaError::NotComputed)
    );
    assert_eq!(tag_target(&AvContainer::WV, &Codec::Flac, true, true, false), Ok(TagTarget::WavPack));
    assert_eq!(tag_target(&AvContainer::MP3, &Codec::Flac, false, false, false), Ok(TagTarget::Mp3));
}

#[test]
fn yes_no_fields() {
    assert_eq!(yn(true), 'Y');
    assert_eq!(yn(false), 'N');
    assert_eq!(from_yn("Yes"), Ok(true));
    assert_eq!(from_yn("n"), Ok(false));
    assert_eq!(from_yn("maybe"), Err(YnError::Invalid));
    assert_eq!(from_yn(""), Err(YnError::Empty));
}

#[test]
fn paths_normalize_lexically() {
    let p = |parts: Vec<PathPart>| FsPath { parts };
    let n = |s: &str| PathPart::Normal(s.to_string());
    assert_eq!(
        normalized(&p(vec![n("a"), PathPart::Current, n("b"), PathPart::Parent, n("c")])),
        p(vec![n("a"), n("c")])
    );
    assert_eq!(
        normalized(&p(vec![PathPart::Root, PathPart::Parent, n("x")])),
        p(vec![PathPart::Root, n("x")])
    );
    assert_eq!(
        normalized(&p(vec![PathPart::Parent, n("a"), PathPart::Parent, PathPart::Parent])),
        p(vec![PathPart::Parent, PathPart::Parent])
    );
    assert_eq!(normalized(&p(vec![PathPart::Current])), p(vec![]));
}
