//! What holds of what is asked of IMDb, and of the answers.
use crate::candidate::{
    Candidate, CandidateAny, CandidateAnyView, CandidateEpisode, CandidateEpisodeView,
    CandidateKind, CandidateKindView, CandidatePath,
};
use crate::entity::{Episode, MediaEntity, Pick, SearchResults, TitleKind};
use crate::error;
use crate::error::{RenameError, RenameErrorView};
use crate::laws::texts;
use crate::paths;
use crate::patterns;
use crate::patterns::{Capture, CaptureView};
use crate::query::{Query, QueryView};
use crate::renamer;
use crate::renamer::{
    EpisodeRequest, EpisodeRequestView, RenamerBuilderView, RenamerView, Step, StepView,
};
use vstd::prelude::*;

verus! {

/// Whether a query admits a year.
pub open spec fn admits_year(query: QueryView, year: int) -> bool {
    &&& query.year_ge matches Some(first) ==> first <= year
    &&& query.year_le matches Some(last) ==> year <= last
}

/// The query for a title with a year asks for the cleaned title, admits the candidate's year
/// and no other, admits every kind but episodes and video games, and demands the least
/// number of votes.
pub proof fn law_a_title_is_asked_for_with_its_year(r: RenamerView, candidate: CandidateAnyView)
    ensures
        texts::cleaned(r.any_query(candidate).name, candidate.title),
        forall|year: int| #[trigger]
            admits_year(r.any_query(candidate), year) <==> year == candidate.year,
        forall|kind: TitleKind| #[trigger]
            r.any_query(candidate).kinds.contains(kind) <==> kind != TitleKind::TVEpisode && kind
                != TitleKind::VideoGame,
        r.any_query(candidate).kinds.no_duplicates(),
        r.any_query(candidate).votes_ge == Some(r.min_votes),
{
    texts::law_a_name_is_cleaned(candidate.title);
    let kinds = r.any_query(candidate).kinds;
    assert(kinds[0] == TitleKind::Movie && kinds[1] == TitleKind::Short);
    assert(kinds[2] == TitleKind::TVMiniSeries && kinds[3] == TitleKind::TVMovie);
    assert(kinds[4] == TitleKind::TVSeries && kinds[5] == TitleKind::TVShort);
    assert(kinds[6] == TitleKind::TVSpecial && kinds[7] == TitleKind::Video);
}

/// The query for an episode's TV show asks for the cleaned title, admits every year, admits
/// series and mini series only, and demands the least number of votes.
pub proof fn law_a_tvshow_is_asked_for_by_its_title(
    r: RenamerView,
    candidate: CandidateEpisodeView,
)
    ensures
        texts::cleaned(r.tvshow_query(candidate).name, candidate.tvshow_title),
        r.tvshow_query(candidate).year_ge is None,
        r.tvshow_query(candidate).year_le is None,
        forall|kind: TitleKind| #[trigger]
            r.tvshow_query(candidate).kinds.contains(kind) <==> kind == TitleKind::TVSeries || kind
                == TitleKind::TVMiniSeries,
        r.tvshow_query(candidate).kinds.no_duplicates(),
        r.tvshow_query(candidate).votes_ge == Some(r.min_votes),
{
    texts::law_a_name_is_cleaned(candidate.tvshow_title);
    let kinds = r.tvshow_query(candidate).kinds;
    assert(kinds[0] == TitleKind::TVMiniSeries && kinds[1] == TitleKind::TVSeries);
}

/// What is done of a query goes by what is remembered of it: the entity that was chosen is
/// the answer, results that were found are compared, and else the query is searched for.
pub proof fn law_a_query_goes_by_what_is_remembered(r: RenamerView, query: QueryView)
    ensures
        r.choose_step(query) == if r.choices.contains_key(query) {
            StepView::Found(r.choices[query])
        } else if r.results.contains_key(query) {
            StepView::Choose(query)
        } else {
            StepView::Search(query)
        },
        r.search_step(query) == if r.results.contains_key(query) {
            StepView::Choose(query)
        } else {
            StepView::Search(query)
        },
{
}

/// Whether a step is to list the episodes of a TV show's season, for a candidate.
pub open spec fn lists_for(
    step: StepView,
    tvshow: MediaEntity,
    candidate: CandidateEpisodeView,
) -> bool {
    &&& step matches StepView::ListEpisodes(request)
    &&& request.tvshow_id == tvshow.title.id@
    &&& request.season == candidate.season
    &&& request.episode == candidate.episode
}

/// A title with a year leads to the given entity or, where none is given, to its own query.
pub proof fn law_a_title_leads_to_its_query(r: RenamerView, candidate: CandidateAnyView)
    ensures
        r.first_step(CandidateKindView::Any(candidate)) == r.any_step(candidate),
        match r.force {
            Some(entity) => r.any_step(candidate) == StepView::Found(entity),
            None => {
                let q = r.any_query(candidate);
                if r.choices.contains_key(q) {
                    r.any_step(candidate) == StepView::Found(r.choices[q])
                } else if r.results.contains_key(q) {
                    r.any_step(candidate) == StepView::Choose(q)
                } else {
                    r.any_step(candidate) == StepView::Search(q)
                }
            },
        },
{
}

/// An episode leads to the list of its season's episodes as soon as its TV show is known:
/// where that is given, or was chosen before. A given entity that is no TV show is an error.
/// Otherwise it leads to the TV show's query.
pub proof fn law_an_episode_leads_to_its_tvshow(r: RenamerView, candidate: CandidateEpisodeView)
    ensures
        r.first_step(CandidateKindView::Episode(candidate)) == r.episode_entity_step(candidate),
        match r.force {
            Some(entity) => if entity.title.kind == TitleKind::TVSeries || entity.title.kind
                == TitleKind::TVMiniSeries {
                &&& r.tvshow_step(candidate) == StepView::Found(entity)
                &&& lists_for(r.episode_entity_step(candidate), entity, candidate)
            } else {
                &&& r.tvshow_step(candidate) == StepView::Failed(
                    RenameErrorView::NotTvShow(entity.title.kind),
                )
                &&& r.episode_entity_step(candidate) == r.tvshow_step(candidate)
            },
            None => {
                let q = r.tvshow_query(candidate);
                if r.choices.contains_key(q) {
                    &&& r.tvshow_step(candidate) == StepView::Found(r.choices[q])
                    &&& lists_for(r.episode_entity_step(candidate), r.choices[q], candidate)
                } else if r.results.contains_key(q) {
                    &&& r.tvshow_step(candidate) == StepView::Choose(q)
                    &&& r.episode_entity_step(candidate) == StepView::Choose(q)
                } else {
                    &&& r.tvshow_step(candidate) == StepView::Search(q)
                    &&& r.episode_entity_step(candidate) == StepView::Search(q)
                }
            },
        },
{
}

/// A path of which nothing is known leads to the given entity, and fails where none is.
pub proof fn law_the_unknown_needs_a_given_entity(r: RenamerView)
    ensures
        r.first_step(CandidateKindView::Unknown) == r.unknown_step(),
        r.unknown_step() == match r.force {
            Some(entity) => StepView::Found(entity),
            None => StepView::Failed(RenameErrorView::NoOverride),
        },
{
}

/// A search adds the results to what is remembered of its query, where nothing was, and
/// changes nothing else; they are then to be compared. A failed search adds nothing, and is
/// passed on.
pub proof fn law_a_search_is_remembered(
    r: RenamerView,
    query: QueryView,
    reply: Result<SearchResults, String>,
)
    ensures
        ({
            let later = r.after_search(query, reply);
            let step = renamer::searched_step(query, r.search_outcome(query, reply));
            &&& later.choices == r.choices
            &&& forall|q: QueryView| #[trigger]
                later.results.contains_key(q) <==> r.results.contains_key(q) || q == query
                    && reply is Ok
            &&& forall|q: QueryView| #[trigger]
                r.results.contains_key(q) ==> later.results[q] == r.results[q]
            &&& !r.results.contains_key(query) && reply is Ok ==> later.results[query]
                == reply->Ok_0
            &&& if r.results.contains_key(query) || reply is Ok {
                step == StepView::Choose(query)
            } else {
                step == StepView::Failed(RenameErrorView::Search(reply->Err_0@))
            }
        }),
{
}

/// A choice is added to what is remembered, where none was made for its query, and changes
/// nothing else. The entity that now stands for the query is the candidate's or, for an
/// episode, the TV show whose episodes are listed. A failed choice adds nothing, and is
/// passed on.
pub proof fn law_a_choice_is_remembered(
    r: RenamerView,
    kind: CandidateKindView,
    query: QueryView,
    reply: Result<MediaEntity, String>,
)
    ensures
        ({
            let later = r.after_choice(query, reply);
            let step = renamer::chosen_step(kind, r.choice_outcome(query, reply));
            &&& later.results == r.results
            &&& forall|q: QueryView| #[trigger]
                later.choices.contains_key(q) <==> r.choices.contains_key(q) || q == query
                    && reply is Ok
            &&& forall|q: QueryView| #[trigger]
                r.choices.contains_key(q) ==> later.choices[q] == r.choices[q]
            &&& !r.choices.contains_key(query) && reply is Ok ==> later.choices[query]
                == reply->Ok_0
            &&& if later.choices.contains_key(query) {
                match kind {
                    CandidateKindView::Episode(c) => lists_for(step, later.choices[query], c),
                    _ => step == StepView::Found(later.choices[query]),
                }
            } else {
                step == StepView::Failed(RenameErrorView::Search(reply->Err_0@))
            }
        }),
{
}

/// Comparing a query's best results changes nothing but its choice, which becomes the first
/// result where that is the only one or leads the second. The entity that then stands for
/// the query is the candidate's or, for an episode, the TV show whose episodes are listed.
/// Without such an entity the user is asked, or it is an error where there is no result.
pub proof fn law_a_comparison_is_remembered(
    r: RenamerView,
    kind: CandidateKindView,
    query: QueryView,
    leads: bool,
)
    ensures
        ({
            let hits = if r.results.contains_key(query) {
                r.results[query].hits@
            } else {
                Seq::empty()
            };
            let taken = hits.len() == 1 || hits.len() > 1 && leads;
            let later = r.after_pick(query, leads);
            let step = renamer::picked_step(kind, query, r.pick_outcome(query, leads));
            &&& later.results == r.results
            &&& forall|q: QueryView| #[trigger]
                later.choices.contains_key(q) <==> r.choices.contains_key(q) || q == query && taken
            &&& forall|q: QueryView| #[trigger]
                r.choices.contains_key(q) ==> later.choices[q] == r.choices[q]
            &&& !r.choices.contains_key(query) && taken ==> later.choices[query] == hits[0].entity
            &&& if later.choices.contains_key(query) {
                match kind {
                    CandidateKindView::Episode(c) => lists_for(step, later.choices[query], c),
                    _ => step == StepView::Found(later.choices[query]),
                }
            } else if hits.len() == 0 {
                step == StepView::Failed(RenameErrorView::NoResults)
            } else {
                step == StepView::Ask(query)
            }
        }),
{
}

/// Of results, none is taken where there is none, the only one where there is one, the first
/// where it leads, and otherwise the user is asked.
pub proof fn law_results_are_picked_from(results: SearchResults, leads: bool)
    ensures
        match results.picked(leads) {
            Pick::Nothing => results.hits@.len() == 0,
            Pick::Take(entity) => results.hits@.len() > 0 && entity == results.hits@[0].entity && (
            leads || results.hits@.len() == 1),
            Pick::Ask => results.hits@.len() > 1 && !leads,
        },
{
}

/// Once an entity is known for a candidate's query, it is the candidate's own or, for an
/// episode, the TV show whose season's episodes are listed.
pub proof fn law_a_known_entity_leads_on(kind: CandidateKindView, entity: MediaEntity)
    ensures
        match kind {
            CandidateKindView::Episode(c) => {
                &&& lists_for(renamer::entity_step(kind, entity), entity, c)
                &&& lists_for(renamer::episode_step(entity, c), entity, c)
            },
            _ => renamer::entity_step(kind, entity) == StepView::Found(entity),
        },
{
}

/// The entity that is fetched after a season was listed is that of an episode that has the
/// very number wished for, and of the first such one. Where the episode is missing, none that
/// was listed has the number, and the error names the season, the episode and the TV show
/// that were wished for. A list that could not be read is passed on.
pub proof fn law_the_listed_episode_has_the_number(
    request: EpisodeRequestView,
    reply: Result<Vec<Episode>, String>,
)
    ensures
        match reply {
            Ok(episodes) => match renamer::listed_step(request, reply) {
                StepView::FetchEntity(id) => exists|i: int|
                    0 <= i < episodes@.len() && (#[trigger] episodes@[i]).id@ == id
                        && episodes@[i].episode == Some(request.episode) && forall|j: int|
                        0 <= j < i ==> (#[trigger] episodes@[j]).episode != Some(request.episode),
                StepView::Failed(e) => {
                    &&& forall|j: int|
                        0 <= j < episodes@.len() ==> (#[trigger] episodes@[j]).episode != Some(
                            request.episode,
                        )
                    &&& e matches RenameErrorView::NoSuchEpisode { season, episode, tvshow_id }
                    &&& season == request.season
                    &&& episode == request.episode
                    &&& tvshow_id == request.tvshow_id
                },
                _ => false,
            },
            Err(said) => renamer::listed_step(request, reply) == StepView::Failed(
                RenameErrorView::Index(said@),
            ),
        },
{
    if let Ok(episodes) = reply {
        crate::laws::law_the_first_numbered_is_taken(episodes@, request.episode);
    }
}

/// An entity that was fetched is the one that is found. Where there is none, the error names
/// the identifier. What could not be read is passed on.
pub proof fn law_the_fetched_entity_is_found(
    id: Seq<char>,
    reply: Result<Option<MediaEntity>, String>,
)
    ensures
        match renamer::fetched_step(id, reply) {
            StepView::Found(entity) => reply == Ok::<_, String>(Some(entity)),
            StepView::Failed(e) => match reply {
                Ok(found) => found is None && e == RenameErrorView::NoSuchEntity(id),
                Err(said) => e == RenameErrorView::Index(said@),
            },
            _ => false,
        },
{
}

/// Only an index that could not be read stops everything.
pub proof fn law_only_the_index_stops_everything(e: RenameErrorView)
    ensures
        match e {
            RenameErrorView::Index(_) => e.stops_all(),
            _ => !e.stops_all(),
        },
{
}

/// A renamer is built of the configuration if and only if all three patterns compile: each
/// of its patterns is the one that was set, it remembers nothing, and the rest is as set.
/// The error is that of the first pattern that does not compile, the episode's before the
/// season's before the year's.
pub proof fn law_a_renamer_is_built_as_configured(b: RenamerBuilderView)
    ensures
        match b.built() {
            Ok(r) => {
                &&& patterns::compiled(b.regex_episode) == Ok::<_, regex::Error>(r.episode)
                &&& patterns::compiled(b.regex_season) == Ok::<_, regex::Error>(r.season)
                &&& patterns::compiled(b.regex_year) == Ok::<_, regex::Error>(r.year)
                &&& r.force == b.force
                &&& r.min_votes == b.min_votes
                &&& r.good_threshold == b.good_threshold
                &&& forall|q: QueryView| !#[trigger] r.results.contains_key(q)
                &&& forall|q: QueryView| !#[trigger] r.choices.contains_key(q)
            },
            Err(e) => {
                ||| patterns::compiled(b.regex_episode) matches Err(f) && e
                    == RenameErrorView::Pattern(f)
                ||| patterns::compiled(b.regex_episode) is Ok && (patterns::compiled(
                    b.regex_season,
                ) matches Err(f) && e == RenameErrorView::Pattern(f))
                ||| patterns::compiled(b.regex_episode) is Ok && patterns::compiled(
                    b.regex_season,
                ) is Ok && (patterns::compiled(b.regex_year) matches Err(f) && e
                    == RenameErrorView::Pattern(f))
            },
        },
{
}

/// Where nothing is set, no entity is given, a thousand votes are demanded, and the first
/// result has to lead by a quarter. The patterns are an upper or lower case letter and
/// digits for the season and the episode, and four digits on their own for the year.
pub proof fn law_the_defaults()
    ensures
        ({
            let b = RenamerBuilderView::defaults();
            &&& b.force is None
            &&& b.min_votes == 1000
            &&& b.good_threshold == 0x3fd0_0000_0000_0000
            &&& b.regex_episode == "[Ee](?P<episode>[0-9]+)"@
            &&& b.regex_season == "[Ss](?P<season>[0-9]+)"@
            &&& b.regex_year == "\\b(?P<year>[0-9]{4})\\b"@
        }),
{
}

/// Queries are the same if and only if they ask for the same name, years, kinds and votes.
pub proof fn law_queries_are_told_apart(a: Query, b: Query)
    ensures
        a@ == b@ <==> a.name@ == b.name@ && a.year_ge == b.year_ge && a.year_le == b.year_le
            && a.kinds@ == b.kinds@ && a.votes_ge == b.votes_ge,
        a@.name == a.name@,
        a@.year_ge == a.year_ge,
        a@.year_le == a.year_le,
        a@.kinds == a.kinds@,
        a@.votes_ge == a.votes_ge,
{
    if a.name@ == b.name@ && a.year_ge == b.year_ge && a.year_le == b.year_le && a.kinds@
        == b.kinds@ && a.votes_ge == b.votes_ge {
        assert(a@ =~= b@);
    }
}

/// A candidate is taken for what it is: each of its parts for itself.
pub proof fn law_candidates_are_taken_as_they_are(
    c: Candidate,
    path: CandidatePath,
    kind: CandidateKind,
    any: CandidateAny,
    episode: CandidateEpisode,
    capture: Capture,
)
    ensures
        c@.path == c.path@,
        c@.kind == c.kind@,
        path@.parent == paths::path_bytes(path.parent),
        path@.base_name == path.base_name@,
        match path.ext {
            Some(ext) => path@.ext == Some(ext@),
            None => path@.ext is None,
        },
        match kind {
            CandidateKind::Any(x) => kind@ == CandidateKindView::Any(x@),
            CandidateKind::Episode(x) => kind@ == CandidateKindView::Episode(x@),
            CandidateKind::Unknown => kind@ == CandidateKindView::Unknown,
        },
        any@.title == any.title@,
        any@.year == any.year,
        episode@.tvshow_title == episode.tvshow_title@,
        episode@.season == episode.season,
        episode@.episode == episode.episode,
        match capture {
            Capture::NoMatch => capture@ == CaptureView::NoMatch,
            Capture::NoGroup => capture@ == CaptureView::NoGroup,
            Capture::Group(g) => capture@ == CaptureView::Group(g.start as nat, g.text@),
        },
{
}

/// A step is taken for what it is: what is to be done, and of what.
pub proof fn law_steps_are_taken_as_they_are(step: Step, request: EpisodeRequest)
    ensures
        match step {
            Step::Search(q) => step@ == StepView::Search(q@),
            Step::Choose(q) => step@ == StepView::Choose(q@),
            Step::Ask(q) => step@ == StepView::Ask(q@),
            Step::ListEpisodes(e) => step@ == StepView::ListEpisodes(e@),
            Step::FetchEntity(id) => step@ == StepView::FetchEntity(id@),
            Step::Found(entity) => step@ == StepView::Found(entity),
            Step::Failed(e) => step@ == StepView::Failed(e@),
        },
        request@.tvshow_id == request.tvshow_id@,
        request@.season == request.season,
        request@.episode == request.episode,
{
}

/// An error is taken for what it is: what failed, and of what.
pub proof fn law_errors_are_taken_as_they_are(e: RenameError)
    ensures
        match e {
            RenameError::NoParent(p) => e@ == RenameErrorView::NoParent(paths::path_bytes(p)),
            RenameError::NoFileName(p) => e@ == RenameErrorView::NoFileName(paths::path_bytes(p)),
            RenameError::NotUnicode(p) => e@ == RenameErrorView::NotUnicode(paths::path_bytes(p)),
            RenameError::MissingGroup { group, pattern } => e@ == (RenameErrorView::MissingGroup {
                group: group@,
                pattern: pattern@,
            }),
            RenameError::Number(fault) => e@ == RenameErrorView::Number(fault),
            RenameError::Pattern(fault) => e@ == RenameErrorView::Pattern(fault),
            RenameError::NotTvShow(kind) => e@ == RenameErrorView::NotTvShow(kind),
            RenameError::NoSuchEpisode { season, episode, tvshow_id } => e@ == (
            RenameErrorView::NoSuchEpisode { season, episode, tvshow_id: tvshow_id@ }),
            RenameError::NoSuchEntity(id) => e@ == RenameErrorView::NoSuchEntity(id@),
            RenameError::NoOverride => e@ == RenameErrorView::NoOverride,
            RenameError::NoResults => e@ == RenameErrorView::NoResults,
            RenameError::Search(said) => e@ == RenameErrorView::Search(said@),
            RenameError::Index(said) => e@ == RenameErrorView::Index(said@),
            RenameError::DuplicateDestination(p) => e@ == RenameErrorView::DuplicateDestination(
                paths::path_bytes(p),
            ),
            RenameError::DestinationExists(p) => e@ == RenameErrorView::DestinationExists(
                paths::path_bytes(p),
            ),
        },
{
}

/// A result is taken for what it is: a success for its value, an error for itself, and a
/// path that may be missing for its bytes.
pub proof fn law_results_are_taken_as_they_are<T: View>(
    value: T,
    e: RenameError,
    path: std::path::PathBuf,
)
    ensures
        error::viewed(Ok::<T, RenameError>(value)) == Ok::<T::V, RenameErrorView>(value@),
        error::viewed(Err::<T, RenameError>(e)) == Err::<T::V, RenameErrorView>(e@),
        error::viewed_option(Ok::<Option<T>, RenameError>(Some(value))) == Ok::<
            Option<T::V>,
            RenameErrorView,
        >(Some(value@)),
        error::viewed_option(Ok::<Option<T>, RenameError>(None)) == Ok::<
            Option<T::V>,
            RenameErrorView,
        >(None),
        error::viewed_option(Err::<Option<T>, RenameError>(e)) == Err::<
            Option<T::V>,
            RenameErrorView,
        >(e@),
        paths::optional_bytes(Some(path)) == Some(paths::path_bytes(path)),
        paths::optional_bytes(None) is None,
{
}

} // verus!
