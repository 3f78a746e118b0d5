//! What holds of what is read off a path.
use crate::candidate;
use crate::candidate::{CandidateEpisodeView, CandidateKindView};
use crate::error::RenameErrorView;
use crate::paths;
use crate::patterns;
use crate::patterns::CaptureView;
use crate::renamer::RenamerView;
use crate::text;
use vstd::prelude::*;
use vstd::utf8::*;

verus! {

/// A path splits if and only if it has a parent and a name that is UTF-8; the error says
/// which of them is missing, the parent first, and of which path. The parts are the parent
/// and the name, which is the base name or, with a dot between the two, the base name and
/// the extension. A directory has no extension, a file's has no dot, and a file without one
/// has no dot in its name.
pub proof fn law_a_path_splits_where_it_can(
    path: Seq<u8>,
    parent: Option<Seq<u8>>,
    name: Option<Seq<u8>>,
    is_dir: bool,
)
    ensures
        match candidate::path_parts(path, parent, name, is_dir) {
            Ok(parts) => {
                &&& parent == Some(parts.parent)
                &&& name matches Some(bytes) && valid_utf8(bytes) && match parts.ext {
                    Some(ext) => {
                        &&& !is_dir
                        &&& !ext.contains('.')
                        &&& bytes == encode_utf8(parts.base_name + seq!['.'] + ext)
                    },
                    None => {
                        &&& is_dir || !parts.base_name.contains('.')
                        &&& bytes == encode_utf8(parts.base_name)
                    },
                }
            },
            Err(e) => if parent is None {
                e == RenameErrorView::NoParent(path)
            } else if name is None {
                e == RenameErrorView::NoFileName(path)
            } else {
                !valid_utf8(name->0) && e == RenameErrorView::NotUnicode(path)
            },
        },
{
    if let (Some(parent), Some(bytes)) = (parent, name) {
        if valid_utf8(bytes) {
            decode_utf8_encode_utf8(bytes);
            crate::laws::law_parts_make_the_name(parent, decode_utf8(bytes), is_dir);
        }
    }
}

/// What a group captures is nothing where the pattern does not match, and otherwise what
/// the first match has of the group.
pub proof fn law_a_capture_is_of_the_first_match(
    found: Option<Map<Seq<char>, (nat, Seq<char>)>>,
    group: Seq<char>,
)
    ensures
        match patterns::group_capture(found, group) {
            CaptureView::NoMatch => found is None,
            CaptureView::NoGroup => found is Some && !found->0.contains_key(group),
            CaptureView::Group(start, part) => found is Some && found->0.contains_key(group)
                && found->0[group] == (start, part),
        },
{
}

/// Whether a title is all the text before a byte offset.
pub open spec fn leads_up_to(title: Seq<char>, name: Seq<char>, start: nat) -> bool {
    encode_utf8(title) == encode_utf8(name).subrange(0, start as int)
}

proof fn lemma_leads_up_to(name: Seq<char>, start: nat)
    requires
        is_char_boundary(encode_utf8(name), start as int),
    ensures
        leads_up_to(candidate::text_before(name, start), name, start),
{
    encode_utf8_valid_utf8(name);
    valid_utf8_split(encode_utf8(name), start as int);
    decode_utf8_encode_utf8(encode_utf8(name).subrange(0, start as int));
}

/// An episode is read where both groups were captured, with the season's number that the
/// first of them writes, the episode's number that the second one writes, and the text
/// before the first as the title. There is no episode where one of the patterns does not
/// match. It is an error where one matches without its group, the season's first, or where
/// what was captured writes no number, the season's first.
pub proof fn law_captures_make_an_episode(
    name: Seq<char>,
    season: CaptureView,
    season_pattern: Seq<char>,
    episode: CaptureView,
    episode_pattern: Seq<char>,
)
    requires
        season.cuts(name),
    ensures
        ({
            let read = candidate::episode_of(
                name,
                season,
                season_pattern,
                episode,
                episode_pattern,
            );
            match (season, episode) {
                (CaptureView::NoMatch, _) => read == Ok::<_, RenameErrorView>(
                    None::<CandidateEpisodeView>,
                ),
                (_, CaptureView::NoMatch) => read == Ok::<_, RenameErrorView>(
                    None::<CandidateEpisodeView>,
                ),
                (CaptureView::NoGroup, _) => read matches Err(
                    RenameErrorView::MissingGroup { group, pattern },
                ) && group == "season"@ && pattern == season_pattern,
                (_, CaptureView::NoGroup) => read matches Err(
                    RenameErrorView::MissingGroup { group, pattern },
                ) && group == "episode"@ && pattern == episode_pattern,
                (CaptureView::Group(start, s), CaptureView::Group(_, t)) => match read {
                    Ok(Some(e)) => text::number(s) == Some(e.season) && text::number(t) == Some(
                        e.episode,
                    ) && leads_up_to(e.tvshow_title, name, start),
                    Ok(None) => false,
                    Err(e) => if text::number(s) is None {
                        e == RenameErrorView::Number(text::number_fault(s))
                    } else {
                        text::number(t) is None && e == RenameErrorView::Number(
                            text::number_fault(t),
                        )
                    },
                },
            }
        }),
{
    if let CaptureView::Group(start, _) = season {
        lemma_leads_up_to(name, start);
    }
}

/// A title with a year is read where the year's group was captured, with the number that
/// it writes and the text before it as the title. Nothing is known where the pattern does
/// not match. It is an error where it matches without the group, or where what was captured
/// writes no number.
pub proof fn law_a_capture_makes_a_title(
    name: Seq<char>,
    year: CaptureView,
    year_pattern: Seq<char>,
)
    requires
        year.cuts(name),
    ensures
        ({
            let read = candidate::titled_of(name, year, year_pattern);
            match year {
                CaptureView::NoMatch => read == Ok::<_, RenameErrorView>(
                    CandidateKindView::Unknown,
                ),
                CaptureView::NoGroup => read matches Err(
                    RenameErrorView::MissingGroup { group, pattern },
                ) && group == "year"@ && pattern == year_pattern,
                CaptureView::Group(start, y) => match read {
                    Ok(CandidateKindView::Any(a)) => text::number(y) == Some(a.year)
                        && leads_up_to(a.title, name, start),
                    Ok(_) => false,
                    Err(e) => text::number(y) is None && e == RenameErrorView::Number(
                        text::number_fault(y),
                    ),
                },
            }
        }),
{
    if let CaptureView::Group(start, _) = year {
        lemma_leads_up_to(name, start);
    }
}

/// What a name is read as goes by what the patterns match first in it. Where it is an
/// episode's, its season is the number that the season's pattern captures in the group
/// `season`, and its number within the season the one that the episode's pattern captures
/// in the group `episode`; the title is all the text before the season. Where it is a title
/// with a year, the year is the number that the year's pattern captures in the group `year`,
/// the title is all the text before it, and one of the patterns for an episode does not
/// match. Otherwise the year's pattern does not match either.
pub proof fn law_a_name_is_read_by_its_groups(r: RenamerView, name: Seq<char>)
    ensures
        match r.kind_of(name) {
            Ok(CandidateKindView::Episode(e)) => {
                &&& patterns::first_match(r.season, name) matches Some(s)
                &&& patterns::first_match(r.episode, name) matches Some(t)
                &&& s.contains_key("season"@)
                &&& t.contains_key("episode"@)
                &&& text::number(s["season"@].1) == Some(e.season)
                &&& text::number(t["episode"@].1) == Some(e.episode)
                &&& is_char_boundary(encode_utf8(name), s["season"@].0 as int) ==> leads_up_to(
                    e.tvshow_title,
                    name,
                    s["season"@].0,
                )
            },
            Ok(CandidateKindView::Any(a)) => {
                &&& patterns::first_match(r.season, name) is None || patterns::first_match(
                    r.episode,
                    name,
                ) is None
                &&& patterns::first_match(r.year, name) matches Some(y)
                &&& y.contains_key("year"@)
                &&& text::number(y["year"@].1) == Some(a.year)
                &&& is_char_boundary(encode_utf8(name), y["year"@].0 as int) ==> leads_up_to(
                    a.title,
                    name,
                    y["year"@].0,
                )
            },
            Ok(CandidateKindView::Unknown) => {
                &&& patterns::first_match(r.season, name) is None || patterns::first_match(
                    r.episode,
                    name,
                ) is None
                &&& patterns::first_match(r.year, name) is None
            },
            Err(_) => true,
        },
{
    if let Some(s) = patterns::first_match(r.season, name) {
        if is_char_boundary(encode_utf8(name), s["season"@].0 as int) {
            lemma_leads_up_to(name, s["season"@].0);
        }
    }
    if let Some(y) = patterns::first_match(r.year, name) {
        if is_char_boundary(encode_utf8(name), y["year"@].0 as int) {
            lemma_leads_up_to(name, y["year"@].0);
        }
    }
}

/// A name is an error only where a pattern that is to be read matches without its group or
/// captures what writes no number. The error names the group and the pattern, or says what
/// is wrong with the number; the season goes before the episode, and the year is read only
/// where one of the patterns for an episode does not match.
pub proof fn law_a_name_fails_by_its_groups(r: RenamerView, name: Seq<char>)
    ensures
        ({
            let s = patterns::first_match(r.season, name);
            let t = patterns::first_match(r.episode, name);
            let y = patterns::first_match(r.year, name);
            let missing = |group: Seq<char>, pattern: Seq<char>|
                RenameErrorView::MissingGroup { group, pattern };
            let season = s->0["season"@].1;
            let episode = t->0["episode"@].1;
            let year = y->0["year"@].1;
            r.kind_of(name) matches Err(e) ==> if s is Some && t is Some {
                if !s->0.contains_key("season"@) {
                    e == missing("season"@, patterns::source(r.season))
                } else if !t->0.contains_key("episode"@) {
                    e == missing("episode"@, patterns::source(r.episode))
                } else if text::number(season) is None {
                    e == RenameErrorView::Number(text::number_fault(season))
                } else {
                    text::number(episode) is None && e == RenameErrorView::Number(
                        text::number_fault(episode),
                    )
                }
            } else {
                y is Some && if !y->0.contains_key("year"@) {
                    e == missing("year"@, patterns::source(r.year))
                } else {
                    text::number(year) is None && e == RenameErrorView::Number(
                        text::number_fault(year),
                    )
                }
            }
        }),
{
}

/// Where both patterns for an episode match and capture numbers in their groups, a name is
/// an episode's, whatever else is in it.
pub proof fn law_captured_numbers_make_an_episode(
    r: RenamerView,
    name: Seq<char>,
    s: Map<Seq<char>, (nat, Seq<char>)>,
    t: Map<Seq<char>, (nat, Seq<char>)>,
    season: u32,
    episode: u32,
)
    requires
        patterns::first_match(r.season, name) == Some(s),
        patterns::first_match(r.episode, name) == Some(t),
        s.contains_key("season"@),
        t.contains_key("episode"@),
        text::number(s["season"@].1) == Some(season),
        text::number(t["episode"@].1) == Some(episode),
    ensures
        r.kind_of(name) matches Ok(CandidateKindView::Episode(e)) && e.season == season
            && e.episode == episode,
        r.episode_parts(name) matches Ok(Some(e)) && e.season == season && e.episode == episode,
{
}

/// What is read off a name by the patterns for an episode is what the name is read as,
/// unless it is none.
pub proof fn law_an_episode_is_read_first(r: RenamerView, name: Seq<char>)
    ensures
        match r.episode_parts(name) {
            Ok(Some(e)) => r.kind_of(name) == Ok::<_, RenameErrorView>(
                CandidateKindView::Episode(e),
            ),
            Err(e) => r.kind_of(name) == Err::<CandidateKindView, _>(e),
            Ok(None) => !(r.kind_of(name) matches Ok(CandidateKindView::Episode(_))) && (
            patterns::first_match(r.season, name) is None || patterns::first_match(
                r.episode,
                name,
            ) is None),
        },
{
}

/// A candidate is the path in its parts, and what its base name is read as. It fails where
/// the path does not split, and else where the base name is an error.
pub proof fn law_a_candidate_is_read_off_the_base_name(
    r: RenamerView,
    path: Seq<u8>,
    is_dir: bool,
)
    ensures
        ({
            let parts = candidate::path_parts(
                path,
                paths::parent_bytes(path),
                paths::name_bytes(path),
                is_dir,
            );
            match r.candidate(path, is_dir) {
                Ok(c) => parts == Ok::<_, RenameErrorView>(c.path) && r.kind_of(c.path.base_name)
                    == Ok::<_, RenameErrorView>(c.kind),
                Err(e) => match parts {
                    Ok(p) => r.kind_of(p.base_name) == Err::<CandidateKindView, _>(e),
                    Err(f) => e == f,
                },
            }
        }),
{
}

} // verus!
