use imdb_rename::candidate::{CandidateEpisode, CandidateKind, CandidatePath};
use imdb_rename::entity::{Episode, MediaEntity, Title, TitleKind};
use imdb_rename::error::RenameError;
use imdb_rename::patterns::{Capture, Group};
use imdb_rename::renamer::{Renamer, RenamerBuilder};
use imdb_rename::text;
use std::path::PathBuf;

fn movie(title: &str, year: Option<u32>) -> MediaEntity {
    MediaEntity {
        title: Title {
            id: "tt0000001".to_string(),
            kind: TitleKind::Movie,
            title: title.to_string(),
            start_year: year,
        },
        episode: None,
    }
}

fn episode(title: &str, season: Option<u32>, number: Option<u32>) -> MediaEntity {
    MediaEntity {
        title: Title {
            id: "tt0000002".to_string(),
            kind: TitleKind::TVEpisode,
            title: title.to_string(),
            start_year: Some(1990),
        },
        episode: Some(Episode { id: "tt0000002".to_string(), season, episode: number }),
    }
}

fn renamer() -> Renamer {
    RenamerBuilder::new().build().unwrap()
}

fn path(s: &str) -> PathBuf {
    PathBuf::from(s)
}

fn parts(s: &str, is_dir: bool) -> (PathBuf, String, Option<String>) {
    let c = CandidatePath::from_path(&path(s), is_dir).unwrap();
    (c.parent, c.base_name, c.ext)
}

fn group(start: usize, text: &str) -> Capture {
    Capture::Group(Group { start, text: text.to_string() })
}

#[test]
fn a_path_is_split_at_its_last_dot() {
    assert_eq!(
        parts("/foo/bar.mkv", false),
        (path("/foo"), "bar".to_string(), Some("mkv".to_string()))
    );
    assert_eq!(
        parts("x/a.b.c.srt", false),
        (path("x"), "a.b.c".to_string(), Some("srt".to_string()))
    );
    assert_eq!(parts("plain", false), (path(""), "plain".to_string(), None));
    assert_eq!(
        parts(".hidden", false),
        (path(""), "".to_string(), Some("hidden".to_string()))
    );
    assert_eq!(parts("end.", false), (path(""), "end".to_string(), Some("".to_string())));
    assert_eq!(
        parts("/\u{e9}t\u{e9}.\u{e4}", false),
        (path("/"), "\u{e9}t\u{e9}".to_string(), Some("\u{e4}".to_string()))
    );
}

#[test]
fn a_directory_has_no_extension() {
    assert_eq!(
        parts("/tv/Mr. Robot.S01", true),
        (path("/tv"), "Mr. Robot.S01".to_string(), None)
    );
}

#[test]
fn a_path_without_parent_is_an_error() {
    let e = CandidatePath::from_path(&path("/"), false).unwrap_err();
    assert!(matches!(&e, RenameError::NoParent(p) if *p == path("/")));
    assert_eq!(e.message(), "/: has no parent, cannot rename");
    let e = CandidatePath::from_path(&path(""), true).unwrap_err();
    assert!(matches!(e, RenameError::NoParent(_)));
}

#[test]
fn a_path_without_name_is_an_error() {
    let e = CandidatePath::from_path(&path("foo/.."), false).unwrap_err();
    assert!(matches!(&e, RenameError::NoFileName(p) if *p == path("foo/..")));
    assert_eq!(e.message(), "foo/..: missing file name");
}

#[test]
fn the_parts_of_a_path_can_be_given() {
    let p = path("a/b.c");
    let c = CandidatePath::from_parts(&p, Some(path("q")), Some(path("x.y")), false).unwrap();
    assert_eq!((c.parent, c.base_name, c.ext), (
        path("q"),
        "x".to_string(),
        Some("y".to_string()),
    ));
    let e = CandidatePath::from_parts(&p, None, Some(path("x.y")), false).unwrap_err();
    assert!(matches!(e, RenameError::NoParent(_)));
    let e = CandidatePath::from_parts(&p, Some(path("q")), None, false).unwrap_err();
    assert_eq!(e.message(), "a/b.c: missing file name");
}

#[test]
fn a_name_that_is_not_unicode_is_described() {
    let e = RenameError::NotUnicode(path("a/b"));
    assert_eq!(e.message(), "a/b: invalid UTF-8, cannot rename");
}

#[test]
fn a_movie_is_named_with_its_year() {
    let c = CandidatePath::from_path(&path("/m/x.y.mkv"), false).unwrap();
    assert_eq!(c.new_name(&movie("Citizen Kane", Some(1941))), "Citizen Kane (1941).mkv");
    assert_eq!(c.new_name(&movie("Citizen Kane", None)), "Citizen Kane.mkv");
    assert_eq!(c.new_name(&movie("Zero", Some(0))), "Zero (0).mkv");
    assert_eq!(c.new_name(&movie("Far", Some(u32::MAX))), "Far (4294967295).mkv");
    assert_eq!(c.to_path(&movie("Heat", Some(1995))), path("/m/Heat (1995).mkv"));
}

#[test]
fn an_episode_is_named_with_its_numbers() {
    let c = CandidatePath::from_path(&path("/s/x.mkv"), false).unwrap();
    assert_eq!(
        c.new_name(&episode("Bart the Genius", Some(1), Some(2))),
        "S01E02 - Bart the Genius.mkv"
    );
    assert_eq!(c.new_name(&episode("Late", Some(12), Some(104))), "S12E104 - Late.mkv");
    assert_eq!(c.new_name(&episode("Pilot", None, None)), "S00E00 - Pilot.mkv");
    assert_eq!(c.new_name(&episode("Ten", Some(9), Some(10))), "S09E10 - Ten.mkv");
}

#[test]
fn a_new_path_may_lie_elsewhere() {
    let c = CandidatePath::from_path(&path("m/x.mkv"), false).unwrap();
    assert_eq!(c.to_path(&movie("Face/Off", Some(1997))), path("m/Face/Off (1997).mkv"));
    let c = CandidatePath::from_path(&path("x"), false).unwrap();
    assert_eq!(c.to_path(&movie("Alone", None)), path("Alone"));
}

#[test]
fn the_extension_is_kept() {
    let c = CandidatePath::from_path(&path("x.tar.gz"), false).unwrap();
    let renamed = c.to_path(&movie("Dr. No", Some(1962)));
    let again = CandidatePath::from_path(&renamed, false).unwrap();
    assert_eq!(again.ext, c.ext);
    assert_eq!(again.base_name, "Dr. No (1962)");
}

#[test]
fn a_file_is_renamed_once() {
    let again = |from: &str, entity: &MediaEntity, is_dir| {
        let c = CandidatePath::from_path(&path(from), is_dir).unwrap();
        let renamed = c.to_path(entity);
        let d = CandidatePath::from_path(&renamed, is_dir).unwrap();
        assert_eq!((&d.parent, &d.ext), (&c.parent, &c.ext));
        assert_eq!(d.to_path(entity), renamed);
        renamed
    };
    assert_eq!(
        again("/m/x.y.mkv", &movie("Dr. No", Some(1962)), false),
        path("/m/Dr. No (1962).mkv")
    );
    assert_eq!(
        again("x.mkv", &episode("Pilot", Some(1), Some(1)), false),
        path("S01E01 - Pilot.mkv")
    );
    assert_eq!(again("/Mr. x", &movie("Mr. Robot", Some(2015)), true), path("/Mr. Robot (2015)"));
    assert_eq!(again("./a//./x", &movie("Up", Some(2009)), false), path("./a/Up (2009)"));
    assert_eq!(again("//a/x.b", &movie("9: 1", None), false), path("/a/9: 1.b"));
}

#[test]
fn the_parts_make_up_the_path() {
    for (p, is_dir) in [("/m/x.y.mkv", false), ("plain", false), ("./a//./b.c", true)] {
        let c = CandidatePath::from_path(&path(p), is_dir).unwrap();
        let name = match &c.ext {
            Some(ext) => format!("{}.{}", c.base_name, ext),
            None => c.base_name,
        };
        assert_eq!(c.parent.join(name), path(p));
    }
    // A file that has its new name already keeps its path.
    let c = CandidatePath::from_path(&path("/m//Heat (1995).mkv"), false).unwrap();
    assert_eq!(c.to_path(&movie("Heat", Some(1995))), path("/m//Heat (1995).mkv"));
}

#[test]
fn the_title_begins_the_name() {
    for p in ["Heat.1995.mkv", "Show.S01E02.mkv", "English.srt"] {
        let c = renamer().candidate(&path(p), false).unwrap();
        let title = match c.kind {
            CandidateKind::Any(a) => a.title,
            CandidateKind::Episode(e) => e.tvshow_title,
            CandidateKind::Unknown => String::new(),
        };
        assert!(c.path.base_name.starts_with(&title));
    }
}

#[test]
fn an_episode_is_read_off_a_name() {
    let r = renamer();
    let c = r.candidate(&path("/tv/The.Simpsons.S02E13.720p.mkv"), false).unwrap();
    match c.kind {
        CandidateKind::Episode(e) => {
            assert_eq!(e.tvshow_title, "The.Simpsons.S");
            assert_eq!((e.season, e.episode), (2, 13));
        }
        _ => panic!("no episode"),
    }
    assert_eq!(c.path.base_name, "The.Simpsons.S02E13.720p");
    assert_eq!(c.path.ext, Some("mkv".to_string()));
}

#[test]
fn an_episode_goes_before_a_year() {
    let c = renamer().candidate(&path("Show.1999.s1e2"), true).unwrap();
    match c.kind {
        CandidateKind::Episode(e) => assert_eq!(
            (e.tvshow_title.as_str(), e.season, e.episode),
            ("Show.1999.s", 1, 2)
        ),
        _ => panic!("no episode"),
    }
}

#[test]
fn a_year_is_read_off_a_name() {
    let c = renamer().candidate(&path("/m/Citizen Kane (1941) x.mkv"), false).unwrap();
    match c.kind {
        CandidateKind::Any(a) => {
            assert_eq!((a.title.as_str(), a.year), ("Citizen Kane (", 1941))
        }
        _ => panic!("no year"),
    }
}

#[test]
fn other_names_are_unknown() {
    let c = renamer().candidate(&path("/m/English.srt"), false).unwrap();
    assert!(matches!(c.kind, CandidateKind::Unknown));
    let c = renamer().candidate(&path("/m/12345.srt"), false).unwrap();
    assert!(matches!(c.kind, CandidateKind::Unknown));
}

#[test]
fn a_title_may_hold_wide_characters() {
    let c = renamer().candidate(&path("Am\u{e9}lie \u{2013} 2001.avi"), false).unwrap();
    match c.kind {
        CandidateKind::Any(a) => assert_eq!(a.title, "Am\u{e9}lie \u{2013} "),
        _ => panic!("no year"),
    }
}

#[test]
fn a_pattern_needs_its_group() {
    let p = path("Show.S01E02.1999.mkv");
    let mut b = RenamerBuilder::new();
    b.regex_season("S[0-9]+");
    let e = b.build().unwrap().candidate(&p, false).unwrap_err();
    assert_eq!(e.message(), "missing 'season' group in: S[0-9]+");
    let mut b = RenamerBuilder::new();
    b.regex_episode("E(?P<number>[0-9]+)");
    let e = b.build().unwrap().candidate(&p, false).unwrap_err();
    assert_eq!(e.message(), "missing 'episode' group in: E(?P<number>[0-9]+)");
    let mut b = RenamerBuilder::new();
    b.regex_season("nothing").regex_year("[0-9]{4}");
    let e = b.build().unwrap().candidate(&p, false).unwrap_err();
    assert_eq!(e.message(), "missing 'year' group in: [0-9]{4}");
    // A season without an episode is no episode, whatever its group.
    let mut b = RenamerBuilder::new();
    b.regex_season("S[0-9]+").regex_episode("nothing");
    let c = b.build().unwrap().candidate(&p, false).unwrap();
    assert!(matches!(c.kind, CandidateKind::Any(_)));
}

#[test]
fn what_is_captured_must_be_a_number() {
    let e = renamer().candidate(&path("Show.S99999999999E02.mkv"), false).unwrap_err();
    assert!(matches!(e, RenameError::Number(_)));
    assert_eq!(e.message(), "number too large to fit in target type");
    let mut b = RenamerBuilder::new();
    b.regex_year("(?P<year>[a-z]+)").regex_season("nothing");
    let e = b.build().unwrap().candidate(&path("abc.mkv"), false).unwrap_err();
    assert_eq!(e.message(), "invalid digit found in string");
    let mut b = RenamerBuilder::new();
    b.regex_year("(?P<year>x?)").regex_season("nothing");
    let e = b.build().unwrap().candidate(&path("abc.mkv"), false).unwrap_err();
    assert_eq!(e.message(), "cannot parse integer from empty string");
}

#[test]
fn a_number_may_have_a_plus_sign() {
    let mut b = RenamerBuilder::new();
    b.regex_year("(?P<year>[+][0-9]+)").regex_season("nothing");
    let c = b.build().unwrap().candidate(&path("abc+0042.mkv"), false).unwrap();
    match c.kind {
        CandidateKind::Any(a) => assert_eq!((a.title.as_str(), a.year), ("abc", 42)),
        _ => panic!("no year"),
    }
}

#[test]
fn captures_decide_on_an_episode() {
    let name = "A.S01E12";
    let read = |season, episode| CandidateEpisode::from_captures(name, season, "s", episode, "e");
    let e = read(group(3, "01"), group(6, "12")).unwrap().unwrap();
    assert_eq!((e.tvshow_title.as_str(), e.season, e.episode), ("A.S", 1, 12));
    assert!(read(Capture::NoMatch, Capture::NoGroup).unwrap().is_none());
    assert!(read(Capture::NoGroup, Capture::NoMatch).unwrap().is_none());
    assert_eq!(
        read(Capture::NoGroup, Capture::NoGroup).unwrap_err().message(),
        "missing 'season' group in: s"
    );
    assert_eq!(
        read(group(3, "x"), Capture::NoGroup).unwrap_err().message(),
        "missing 'episode' group in: e"
    );
    assert!(matches!(
        read(group(3, "x"), group(6, "12")).unwrap_err(),
        RenameError::Number(_)
    ));
    assert!(matches!(
        read(group(3, "01"), group(6, "-1")).unwrap_err(),
        RenameError::Number(_)
    ));
}

#[test]
fn captures_decide_on_a_year() {
    assert!(matches!(
        CandidateKind::from_year("x", Capture::NoMatch, "y"),
        Ok(CandidateKind::Unknown)
    ));
    assert_eq!(
        CandidateKind::from_year("x", Capture::NoGroup, "y").unwrap_err().message(),
        "missing 'year' group in: y"
    );
    match CandidateKind::from_year("Up 2009", group(3, "2009"), "y") {
        Ok(CandidateKind::Any(a)) => assert_eq!((a.title.as_str(), a.year), ("Up ", 2009)),
        _ => panic!("no year"),
    }
}

#[test]
fn names_are_cleaned_for_a_search() {
    assert_eq!(text::sanitize("The.Simpsons."), "The Simpsons");
    assert_eq!(text::sanitize(" \t\u{3000}a..b\u{a0}"), "a  b");
    assert_eq!(text::sanitize("..."), "");
    assert_eq!(text::sanitize("\u{200b}x\u{2028}"), "\u{200b}x");
}

#[test]
fn white_space_is_what_unicode_says() {
    for c in (0..=0x10ffffu32).filter_map(char::from_u32) {
        let listed = matches!(
            c,
            '\u{9}'..='\u{d}'
                | ' '
                | '\u{85}'
                | '\u{a0}'
                | '\u{1680}'
                | '\u{2000}'..='\u{200a}'
                | '\u{2028}'
                | '\u{2029}'
                | '\u{202f}'
                | '\u{205f}'
                | '\u{3000}'
        );
        assert_eq!(c.is_whitespace(), listed);
    }
}
