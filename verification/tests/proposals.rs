use imdb_rename::error::RenameError;
use imdb_rename::proposal::{order, sort_by, Attempt, Measure, RenameProposal};
use imdb_rename::renamer::{Renamer, RenamerBuilder};
use std::path::PathBuf;

fn proposal(src: &str, dst: &str) -> RenameProposal {
    RenameProposal { src: PathBuf::from(src), dst: PathBuf::from(dst) }
}

fn file(src: &str, dst: &str) -> Attempt {
    Attempt { outcome: Ok(proposal(src, dst)), dst_exists: false, src_is_dir: false }
}

fn dir(src: &str, dst: &str) -> Attempt {
    Attempt { outcome: Ok(proposal(src, dst)), dst_exists: false, src_is_dir: true }
}

fn taken(src: &str, dst: &str) -> Attempt {
    Attempt { outcome: Ok(proposal(src, dst)), dst_exists: true, src_is_dir: false }
}

fn failed(e: RenameError) -> Attempt {
    Attempt { outcome: Err(e), dst_exists: false, src_is_dir: false }
}

fn renamer() -> Renamer {
    RenamerBuilder::new().build().unwrap()
}

fn destinations(proposals: &[RenameProposal]) -> Vec<&str> {
    proposals.iter().map(|p| p.dst.to_str().unwrap()).collect()
}

#[test]
fn files_keep_their_order() {
    let got = renamer().propose(vec![file("a", "x"), file("b", "xyz"), file("c", "xy")]).unwrap();
    assert_eq!(destinations(&got), vec!["x", "xyz", "xy"]);
    assert_eq!(got[1].src, PathBuf::from("b"));
    assert!(renamer().propose(vec![]).unwrap().is_empty());
}

#[test]
fn the_longest_goes_first_where_there_is_a_directory() {
    let got = renamer()
        .propose(vec![
            dir("d", "dd"),
            file("d/a", "d/aaaa"),
            file("d/b", "d/bb"),
            file("d/c", "d/cc"),
        ])
        .unwrap();
    assert_eq!(destinations(&got), vec!["d/aaaa", "d/bb", "d/cc", "dd"]);
}

#[test]
fn what_is_in_a_directory_goes_before_it() {
    let got = renamer()
        .propose(vec![dir("d", "x"), dir("d/e", "d/long name"), file("d/e/f", "d/e/g")])
        .unwrap();
    assert_eq!(destinations(&got), vec!["d/e/g", "d/long name", "x"]);
}

#[test]
fn a_directory_with_a_long_new_name_goes_after_its_entries() {
    let got = renamer()
        .propose(vec![dir("a", "A Very Long Title (1999)"), file("a/b.mkv", "a/B.mkv")])
        .unwrap();
    assert_eq!(destinations(&got), vec!["a/B.mkv", "A Very Long Title (1999)"]);
    let got = renamer()
        .propose(vec![
            dir("/tv/x", "/tv/A Long Show Title (2005)"),
            file("/tv/x/e.mkv", "/tv/x/S01E01 - Pilot.mkv"),
        ])
        .unwrap();
    assert_eq!(
        destinations(&got),
        vec!["/tv/x/S01E01 - Pilot.mkv", "/tv/A Long Show Title (2005)"]
    );
}

#[test]
fn a_directory_may_be_spelled_at_length() {
    for directory in ["x", "x/", "x//", "x///", "./././x"] {
        let entry = if directory.starts_with('.') { "./x/a" } else { "x/a" };
        let new = if directory.starts_with('.') { "./x/Heat (1995)" } else { "x/Heat (1995)" };
        let got = renamer().propose(vec![dir(directory, "Heat (1995)"), file(entry, new)]).unwrap();
        assert_eq!(destinations(&got), vec![new, "Heat (1995)"]);
        let long = "The Longer Title of a Directory (1995)";
        let got = renamer().propose(vec![dir(directory, long), file(entry, new)]).unwrap();
        assert_eq!(destinations(&got), vec![new, long]);
    }
}

#[test]
fn a_path_that_only_looks_alike_does_not_lie_inside() {
    // `ab` begins like `a`, but is no entry of it.
    let got = renamer().propose(vec![dir("a", "long name"), file("ab", "short")]).unwrap();
    assert_eq!(destinations(&got), vec!["long name", "short"]);
}

#[test]
fn the_longest_destination_goes_first_unless_an_entry_must() {
    let unrelated = vec![
        dir("d", "dd"),
        file("a/b/c", "a/b/x"),
        file("long source name", "y"),
        file("z", "long destination"),
    ];
    let got = renamer().propose(unrelated).unwrap();
    assert_eq!(destinations(&got), vec!["long destination", "a/b/x", "dd", "y"]);
    let got = order(vec![
        proposal("d", "the longest destination"),
        proposal("d/e", "d/x"),
        proposal("z", "a longer one"),
        proposal("d/f", "d/yy"),
    ]);
    assert_eq!(
        destinations(&got),
        vec!["d/yy", "d/x", "the longest destination", "a longer one"]
    );
}

#[test]
fn length_is_counted_in_bytes() {
    let given = || vec![
        proposal("a/b", "xyz"),
        proposal("c", "\u{20ac}\u{20ac}"),
        proposal("d", "uvw"),
        proposal("e//./f/", "t"),
    ];
    let got = sort_by(given(), Measure::Length);
    assert_eq!(destinations(&got), vec!["\u{20ac}\u{20ac}", "xyz", "uvw", "t"]);
    let got = sort_by(given(), Measure::Depth);
    assert_eq!(destinations(&got), vec!["xyz", "t", "\u{20ac}\u{20ac}", "uvw"]);
}

#[test]
fn what_changes_nothing_is_left_out() {
    let got = renamer()
        .propose(vec![
            taken("a", "a"),
            file("b", "x"),
            taken("p//q/./r", "p/q/r"),
            dir("d", "d"),
            file("c", "xx"),
        ])
        .unwrap();
    assert_eq!(destinations(&got), vec!["x", "xx"]);
}

#[test]
fn two_files_cannot_get_one_path() {
    let e = renamer()
        .propose(vec![file("a", "x"), file("b", "y"), file("c", "x"), taken("d", "z")])
        .unwrap_err();
    assert!(matches!(&e, RenameError::DuplicateDestination(p) if *p == PathBuf::from("x")));
    assert_eq!(e.message(), "duplicate rename proposal for 'x'");
    let e = renamer().propose(vec![file("a", "p/x"), file("b", "p//x")]).unwrap_err();
    assert_eq!(e.message(), "duplicate rename proposal for 'p//x'");
}

#[test]
fn a_taken_path_is_an_error() {
    let e = renamer()
        .propose(vec![file("a", "x"), taken("b", "y"), file("c", "x")])
        .unwrap_err();
    assert!(matches!(&e, RenameError::DestinationExists(p) if *p == PathBuf::from("y")));
    assert_eq!(e.message(), "file path 'y' already exists");
}

#[test]
fn a_repeated_path_goes_before_a_taken_one() {
    let e = renamer().propose(vec![file("a", "x"), taken("b", "x")]).unwrap_err();
    assert!(matches!(e, RenameError::DuplicateDestination(_)));
}

#[test]
fn a_failed_path_is_skipped() {
    let got = renamer()
        .propose(vec![
            failed(RenameError::NoOverride),
            file("a", "x"),
            failed(RenameError::Search("no".to_string())),
        ])
        .unwrap();
    assert_eq!(destinations(&got), vec!["x"]);
}

#[test]
fn an_unreadable_index_stops_everything() {
    let e = renamer()
        .propose(vec![
            file("a", "x"),
            file("b", "x"),
            failed(RenameError::Index("broken".to_string())),
            failed(RenameError::Index("still broken".to_string())),
        ])
        .unwrap_err();
    assert!(matches!(&e, RenameError::Index(_)));
    assert!(e.stops_all());
    assert!(!RenameError::Search("broken".to_string()).stops_all());
    assert_eq!(e.message(), "broken");
}

#[test]
fn proposals_can_be_copied() {
    let p = proposal("a", "b");
    let q = p.clone();
    assert_eq!((p.src, p.dst), (q.src, q.dst));
}
