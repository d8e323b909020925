use std::cmp::Ordering;
use std::path::{Component, Path};

use mxc::order::sort_units;
use mxc::walker::{
    classify_dir, ff_cmp, is_audio_path, is_one_art_folder, single_cmp, text_cmp, DirUnits,
    FsPath, PathPart, RGE,
};

fn path(s: &str) -> FsPath {
    let parts = Path::new(s)
        .components()
        .map(|c| match c {
            Component::RootDir => PathPart::Root,
            Component::CurDir => PathPart::Current,
            Component::ParentDir => PathPart::Parent,
            Component::Normal(n) => PathPart::Normal(n.to_string_lossy().into_owned()),
            Component::Prefix(p) => PathPart::Normal(p.as_os_str().to_string_lossy().into_owned()),
        })
        .collect();
    FsPath { parts }
}

fn album(s: &str) -> RGE {
    RGE::Album(vec![path(s)])
}

fn single(s: &str) -> RGE {
    RGE::Single(path(s))
}

fn assert_lg(left: RGE, right: RGE) {
    assert!(left < right);
    assert!(right > left);
}

#[test]
fn brian_wilson_dir() {
    assert_lg(
        album("lol/Brian Wilson/Brian Wilson/lol.flac"),
        album("lol/Brian Wilson/Smile/smile.flac"),
    );
    assert_lg(
        album("lol/Brian Wilson/Smile/smile.flac"),
        single("lol/Brian Wilson/Brian Wilson - Right Where I Belong.flac"),
    );
    assert_lg(
        album("lol/Brian Wilson/Brian Wilson/lol.flac"),
        single("lol/Brian Wilson/Brian Wilson - Right Where I Belong.flac"),
    );
    assert_lg(
        single("lol/Brian Wilson/Brian Wilson - Right Where I Belong.flac"),
        single("lol/Brian Wilson/Paul Shaffer - Metal Beach.flac"),
    );
    assert_lg(
        album("lol/Brian Wilson/Brian Wilson/lol.flac"),
        single("lol/Brian Wilson/Paul Shaffer - Metal Beach.flac"),
    );
    assert_lg(
        album("lol/Brian Wilson/Smile/smile.flac"),
        single("lol/Brian Wilson/Paul Shaffer - Metal Beach.flac"),
    );
    assert_lg(
        album("lol/Brian Wilson/Brian Wilson/lol.flac"),
        single("lol/Brian Wilson/Paul Shaffer - Metal Beach.flac"),
    );

    let rges = vec![
        single("lol/Brian Wilson/Paul Shaffer - Metal Beach.flac"),
        album("lol/Brian Wilson/Brian Wilson/lol.flac"),
        single("lol/Brian Wilson/Brian Wilson - Right Where I Belong.flac"),
        album("lol/Brian Wilson/Smile/smile.flac"),
    ];
    let rges = sort_units(rges);
    assert_eq!(
        rges,
        vec![
            album("lol/Brian Wilson/Brian Wilson/lol.flac"),
            album("lol/Brian Wilson/Smile/smile.flac"),
            single("lol/Brian Wilson/Brian Wilson - Right Where I Belong.flac"),
            single("lol/Brian Wilson/Paul Shaffer - Metal Beach.flac"),
        ]
    );
}

#[test]
fn brian_wilson_and_others_dir() {
    assert_lg(
        album("lol/Brian Wilson/Brian Wilson/lol.flac"),
        album("lol/Brian Wilson/Smile/smile.flac"),
    );
    assert_lg(
        album("lol/Brian Wilson/Smile/smile.flac"),
        single("lol/Brian Wilson/Brian Wilson - Right Where I Belong.flac"),
    );
    assert_lg(
        single("lol/Brian Wilson/Brian Wilson - Right Where I Belong.flac"),
        single("lol/Brian Wilson/Paul Shaffer - Metal Beach.flac"),
    );
    assert_lg(
        single("lol/Brian Wilson/Paul Shaffer - Metal Beach.flac"),
        album("lol/The Beach Boys/Smile/smile.flac"),
    );

    assert_lg(
        album("lol/Brian Wilson/Brian Wilson/lol.flac"),
        single("lol/Brian Wilson/Brian Wilson - Right Where I Belong.flac"),
    );
    assert_lg(
        album("lol/Brian Wilson/Brian Wilson/lol.flac"),
        single("lol/Brian Wilson/Paul Shaffer - Metal Beach.flac"),
    );
    assert_lg(
        album("lol/Brian Wilson/Brian Wilson/lol.flac"),
        album("lol/The Beach Boys/Smile/smile.flac"),
    );
    assert_lg(
        album("lol/Brian Wilson/Brian Wilson/lol.flac"),
        single("lol/abba.flac"),
    );
    assert_lg(
        album("lol/Brian Wilson/Smile/smile.flac"),
        single("lol/Brian Wilson/Paul Shaffer - Metal Beach.flac"),
    );
    assert_lg(
        album("lol/Brian Wilson/Smile/smile.flac"),
        album("lol/The Beach Boys/Smile/smile.flac"),
    );
    assert_lg(
        album("lol/Brian Wilson/Smile/smile.flac"),
        single("lol/abba.flac"),
    );
    assert_lg(
        single("lol/Brian Wilson/Brian Wilson - Right Where I Belong.flac"),
        album("lol/The Beach Boys/Smile/smile.flac"),
    );
    assert_lg(
        single("lol/Brian Wilson/Brian Wilson - Right Where I Belong.flac"),
        single("lol/abba.flac"),
    );
    assert_lg(
        single("lol/Brian Wilson/Paul Shaffer - Metal Beach.flac"),
        single("lol/abba.flac"),
    );

    println!("\n\n-------------------------------\n");
    let rges = vec![
        single("lol/Brian Wilson/Paul Shaffer - Metal Beach.flac"),
        single("lol/abba.flac"),
        album("lol/Brian Wilson/Brian Wilson/lol.flac"),
        album("lol/The Beach Boys/Smile/smile.flac"),
        single("lol/Brian Wilson/Brian Wilson - Right Where I Belong.flac"),
        album("lol/Brian Wilson/Smile/smile.flac"),
    ];
    let rges = sort_units(rges);
    assert_eq!(
        rges,
        vec![
            album("lol/Brian Wilson/Brian Wilson/lol.flac"),
            album("lol/Brian Wilson/Smile/smile.flac"),
            single("lol/Brian Wilson/Brian Wilson - Right Where I Belong.flac"),
            single("lol/Brian Wilson/Paul Shaffer - Metal Beach.flac"),
            album("lol/The Beach Boys/Smile/smile.flac"),
            single("lol/abba.flac"),
        ]
    );
}

#[test]
fn file_folder() {
    assert_eq!(ff_cmp(&path("file.flac"), &path("folder/")), Ordering::Greater);
    assert_eq!(ff_cmp(&path("a.flac"), &path("folder/")), Ordering::Greater);
    assert_eq!(
        ff_cmp(&path("folder/file.flac"), &path("folder/f1")),
        Ordering::Greater
    );
}

#[test]
fn file_single() {
    assert_eq!(
        single_cmp(&path("file.flac"), &path("folder/file.flac")),
        Ordering::Greater
    );
    assert_eq!(
        single_cmp(&path("a.flac"), &path("folder/file.flac")),
        Ordering::Greater
    );
    assert_eq!(
        single_cmp(&path("folder/file.flac"), &path("folder/a.flac")),
        Ordering::Greater
    );
}

#[test]
fn names_compare_upper_cased() {
    // 'a' is above 'B' as a code point, but not once upper-cased.
    assert_eq!(
        single("x/a.flac").compare(&single("x/B.flac")),
        Ordering::Less
    );
    assert_eq!(
        single("x/B.flac").compare(&single("x/a.flac")),
        Ordering::Greater
    );
    assert_eq!(
        album("x/abc/1.flac").compare(&album("x/ABC/2.flac")),
        Ordering::Equal
    );
}

#[test]
fn text_cmp_by_code_point() {
    let s = |x: &str| x.to_string();
    assert_eq!(text_cmp(&s("abc"), &s("abd")), Ordering::Less);
    assert_eq!(text_cmp(&s("abc"), &s("ab")), Ordering::Greater);
    assert_eq!(text_cmp(&s("ab"), &s("ab")), Ordering::Equal);
    assert_eq!(text_cmp(&s(""), &s("a")), Ordering::Less);
    assert_eq!(text_cmp(&s("Z"), &s("a")), Ordering::Less);
    assert_eq!(text_cmp(&s("é"), &s("z")), Ordering::Greater);
}

#[test]
fn sort_order_is_transitive_on_a_tree() {
    // Folders of a level come before its files.
    let a = album("m/A/1.flac");
    let b = album("m/C/1.flac");
    let c = single("m/B.flac");
    assert!(a < b && b < c && a < c);
    let d = single("n.flac");
    assert!(c < d && b < d && a < d);
}

#[test]
fn sorting_sorted_list_changes_nothing() {
    let units = vec![
        single("lol/abba.flac"),
        album("lol/The Beach Boys/Smile/smile.flac"),
        single("lol/Brian Wilson/Paul Shaffer - Metal Beach.flac"),
        album("lol/Brian Wilson/Smile/smile.flac"),
    ];
    let once = sort_units(units);
    let twice = sort_units(once.clone());
    assert_eq!(once, twice);
}

#[test]
fn sorting_ignores_listing_order() {
    let a = vec![
        single("r/x.flac"),
        album("r/d/1.flac"),
        single("r/a.flac"),
        album("r/b/1.flac"),
    ];
    let mut b = a.clone();
    b.reverse();
    let sa = sort_units(a);
    let sb = sort_units(b);
    assert_eq!(sa, sb);
    assert_eq!(
        sa,
        vec![
            album("r/b/1.flac"),
            album("r/d/1.flac"),
            single("r/a.flac"),
            single("r/x.flac"),
        ]
    );
}

#[test]
fn audio_by_extension() {
    assert!(is_audio_path(&path("a/b.flac")));
    assert!(is_audio_path(&path("a/b.FLAC")));
    assert!(is_audio_path(&path("b.tar.Mp3")));
    assert!(is_audio_path(&path("x.aiff")));
    assert!(is_audio_path(&path("x.wv")));
    assert!(!is_audio_path(&path("b.txt")));
    assert!(!is_audio_path(&path(".flac")));
    assert!(!is_audio_path(&path("flac")));
    assert!(!is_audio_path(&path("b.flac.jpg")));
    assert!(!is_audio_path(&path("b.")));
    assert!(!is_audio_path(&path("a/..")));
    assert!(!is_audio_path(&path("")));
}

#[test]
fn art_folder_names() {
    for name in ["cover", "Covers", "ART", "arts", "Scans"] {
        assert!(is_one_art_folder(&vec![path(&format!("d/{name}"))]), "{name}");
    }
    assert!(!is_one_art_folder(&vec![path("d/artwork")]));
    assert!(!is_one_art_folder(&vec![path("d/cover"), path("d/scans")]));
    assert!(!is_one_art_folder(&vec![]));
}

#[test]
fn art_folder_collapses_into_album() {
    let files = vec![path("d/1.flac"), path("d/cover.jpg"), path("d/2.mp3")];
    match classify_dir(&vec![path("d/Covers")], files) {
        DirUnits::Album(v) => assert_eq!(v, vec![path("d/1.flac"), path("d/2.mp3")]),
        _ => panic!("expected an album"),
    }
}

#[test]
fn folder_without_subfolders_is_album() {
    match classify_dir(&vec![], vec![path("d/b.ogg"), path("d/a.opus")]) {
        DirUnits::Album(v) => assert_eq!(v, vec![path("d/b.ogg"), path("d/a.opus")]),
        _ => panic!("expected an album"),
    }
}

#[test]
fn folder_without_audio_yields_nothing() {
    assert!(matches!(
        classify_dir(&vec![path("d/scans")], vec![path("d/notes.txt")]),
        DirUnits::Nothing
    ));
    assert!(matches!(classify_dir(&vec![], vec![]), DirUnits::Nothing));
}

#[test]
fn folder_with_subfolders_descends() {
    let folders = vec![path("d/cd1"), path("d/cd2")];
    match classify_dir(&folders, vec![path("d/bonus.flac"), path("d/x.log")]) {
        DirUnits::Descend(v) => assert_eq!(v, vec![path("d/bonus.flac")]),
        _ => panic!("expected to descend"),
    }
    match classify_dir(&vec![path("d/live")], vec![]) {
        DirUnits::Descend(v) => assert!(v.is_empty()),
        _ => panic!("expected to descend"),
    }
}

#[test]
fn classification_is_repeatable() {
    let folders = vec![path("d/cover")];
    let files = vec![path("d/2.flac"), path("d/1.flac")];
    let first = match classify_dir(&folders, files.clone()) {
        DirUnits::Album(v) => v,
        _ => panic!("expected an album"),
    };
    let second = match classify_dir(&folders, files) {
        DirUnits::Album(v) => v,
        _ => panic!("expected an album"),
    };
    assert_eq!(first, second);
}

#[test]
fn unit_accessors() {
    let a = RGE::Album(vec![path("m/x/1.flac"), path("m/x/2.flac")]);
    assert!(a.is_album());
    assert_eq!(a.relevant_path(), path("m/x"));
    assert_eq!(a.sliced(), vec![path("m/x/1.flac"), path("m/x/2.flac")]);
    let s = single("m/y.flac");
    assert!(!s.is_album());
    assert_eq!(s.relevant_path(), path("m/y.flac"));
    assert_eq!(s.sliced(), vec![path("m/y.flac")]);
}

#[test]
fn mixed_siblings_sort_albums_then_singles() {
    let units = vec![
        single("Brian Wilson/Paul Shaffer - Metal Beach.flac"),
        single("Brian Wilson/Brian Wilson - Right Where I Belong.flac"),
        album("Brian Wilson/Smile/smile.flac"),
        album("Brian Wilson/Brian Wilson/lol.flac"),
    ];
    assert_eq!(
        sort_units(units),
        vec![
            album("Brian Wilson/Brian Wilson/lol.flac"),
            album("Brian Wilson/Smile/smile.flac"),
            single("Brian Wilson/Brian Wilson - Right Where I Belong.flac"),
            single("Brian Wilson/Paul Shaffer - Metal Beach.flac"),
        ]
    );
}
