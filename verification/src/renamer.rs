//! The renamer: from a source path to the entity that the file holds.
use crate::candidate;
use crate::candidate::{
    Candidate, CandidateAny, CandidateAnyView, CandidateEpisode, CandidateEpisodeView,
    CandidateKind, CandidateKindView, CandidatePath, CandidateView,
};
use crate::entity::{Episode, MediaEntity, Pick, SearchResults, TitleKind};
use crate::error;
use crate::error::{RenameError, RenameErrorView};
use crate::paths;
use crate::patterns;
use crate::patterns::CaptureView;
use crate::proposal::RenameProposal;
use crate::query::{Query, QueryCache, QueryView};
use crate::text;
use regex::Regex;
use std::path::PathBuf;
use vstd::prelude::*;
use vstd::string::*;

verus! {

/// A renamer finds the entity in IMDb that a file holds, and proposes a path after it.
///
/// It is built by a [`RenamerBuilder`]. It neither searches IMDb nor touches the file
/// system itself: it says what to ask next as a [`Step`], and is told the answer.
#[derive(Debug)]
pub struct Renamer {
    cache: QueryCache<SearchResults>,
    choose_cache: QueryCache<MediaEntity>,
    force: Option<MediaEntity>,
    min_votes: u32,
    good_threshold: u64,
    episode: Regex,
    season: Regex,
    year: Regex,
}

/// A renamer as a mathematical value.
#[verifier::ext_equal]
pub struct RenamerView {
    /// The results of the queries that were searched.
    pub results: Map<QueryView, SearchResults>,
    /// The entities that were chosen for queries.
    pub choices: Map<QueryView, MediaEntity>,
    /// The entity that is used for every path, where one is given.
    pub force: Option<MediaEntity>,
    /// The least number of votes.
    pub min_votes: u32,
    /// The bits of the threshold for choosing a result unasked.
    pub good_threshold: u64,
    /// The pattern for the number of an episode.
    pub episode: Regex,
    /// The pattern for the number of a season.
    pub season: Regex,
    /// The pattern for a year.
    pub year: Regex,
}

impl View for Renamer {
    type V = RenamerView;

    closed spec fn view(&self) -> RenamerView {
        RenamerView {
            results: self.cache@,
            choices: self.choose_cache@,
            force: self.force,
            min_votes: self.min_votes,
            good_threshold: self.good_threshold,
            episode: self.episode,
            season: self.season,
            year: self.year,
        }
    }
}

/// What is to be done next to find the entity for a path.
#[derive(Debug)]
pub enum Step {
    /// Search for the query, then go on with [`Renamer::searched`].
    Search(Query),
    /// Compare the scores of the query's two best [`results`](Renamer::results), then go
    /// on with [`Renamer::compared`].
    Choose(Query),
    /// Ask the user to choose one of the query's [`results`](Renamer::results), then go on
    /// with [`Renamer::chosen`].
    Ask(Query),
    /// List the episodes of a TV show's season, then go on with
    /// [`EpisodeRequest::listed`].
    ListEpisodes(EpisodeRequest),
    /// Fetch the entity of this identifier, then go on with [`Step::fetched`].
    FetchEntity(String),
    /// Nothing: this is the entity.
    Found(MediaEntity),
    /// Nothing: there is no entity for the path.
    Failed(RenameError),
}

/// The wish for one episode of a TV show.
#[derive(Debug)]
pub struct EpisodeRequest {
    /// The identifier of the TV show.
    pub tvshow_id: String,
    /// The number of the season.
    pub season: u32,
    /// The number of the episode.
    pub episode: u32,
}

/// A step as a mathematical value.
#[verifier::ext_equal]
pub enum StepView {
    Search(QueryView),
    Choose(QueryView),
    Ask(QueryView),
    ListEpisodes(EpisodeRequestView),
    FetchEntity(Seq<char>),
    Found(MediaEntity),
    Failed(RenameErrorView),
}

/// The wish for an episode as a mathematical value.
#[verifier::ext_equal]
pub struct EpisodeRequestView {
    pub tvshow_id: Seq<char>,
    pub season: u32,
    pub episode: u32,
}

impl View for Step {
    type V = StepView;

    open spec fn view(&self) -> StepView {
        match self {
            Step::Search(q) => StepView::Search(q@),
            Step::Choose(q) => StepView::Choose(q@),
            Step::Ask(q) => StepView::Ask(q@),
            Step::ListEpisodes(r) => StepView::ListEpisodes(r@),
            Step::FetchEntity(id) => StepView::FetchEntity(id@),
            Step::Found(entity) => StepView::Found(*entity),
            Step::Failed(e) => StepView::Failed(e@),
        }
    }
}

impl View for EpisodeRequest {
    type V = EpisodeRequestView;

    open spec fn view(&self) -> EpisodeRequestView {
        EpisodeRequestView {
            tvshow_id: self.tvshow_id@,
            season: self.season,
            episode: self.episode,
        }
    }
}

/// The kinds of title that a file with a year in its name may hold: all but episodes
/// and video games.
pub open spec fn any_kinds() -> Seq<TitleKind> {
    seq![
        TitleKind::Movie,
        TitleKind::Short,
        TitleKind::TVMiniSeries,
        TitleKind::TVMovie,
        TitleKind::TVSeries,
        TitleKind::TVShort,
        TitleKind::TVSpecial,
        TitleKind::Video,
    ]
}

/// The kinds of title that have episodes.
pub open spec fn tvshow_kinds() -> Seq<TitleKind> {
    seq![TitleKind::TVMiniSeries, TitleKind::TVSeries]
}

/// The step to an episode of a TV show.
pub open spec fn episode_step(tvshow: MediaEntity, candidate: CandidateEpisodeView) -> StepView {
    StepView::ListEpisodes(
        EpisodeRequestView {
            tvshow_id: tvshow.title.id@,
            season: candidate.season,
            episode: candidate.episode,
        },
    )
}

/// The step after a search: to choose one of the results.
pub open spec fn searched_step(
    query: QueryView,
    reply: Result<SearchResults, String>,
) -> StepView {
    match reply {
        Ok(_) => StepView::Choose(query),
        Err(text) => StepView::Failed(RenameErrorView::Search(text@)),
    }
}

/// The step once a query's entity is known: to the episode, where the candidate is one and
/// the entity its TV show.
pub open spec fn entity_step(kind: CandidateKindView, entity: MediaEntity) -> StepView {
    match kind {
        CandidateKindView::Episode(candidate) => episode_step(entity, candidate),
        _ => StepView::Found(entity),
    }
}

/// The step after the best results of a query were compared: to the one that was picked, or
/// to the user.
pub open spec fn picked_step(kind: CandidateKindView, query: QueryView, pick: Pick) -> StepView {
    match pick {
        Pick::Nothing => StepView::Failed(RenameErrorView::NoResults),
        Pick::Take(entity) => entity_step(kind, entity),
        Pick::Ask => StepView::Ask(query),
    }
}

/// The step after an entity was chosen for a candidate.
pub open spec fn chosen_step(
    kind: CandidateKindView,
    reply: Result<MediaEntity, String>,
) -> StepView {
    match reply {
        Ok(entity) => entity_step(kind, entity),
        Err(text) => StepView::Failed(RenameErrorView::Search(text@)),
    }
}

/// The step after a season's episodes were listed: to the entity of the first that has
/// the number wished for.
pub open spec fn listed_step(
    request: EpisodeRequestView,
    reply: Result<Vec<Episode>, String>,
) -> StepView {
    match reply {
        Ok(episodes) => match first_numbered(episodes@, request.episode) {
            Some(ep) => StepView::FetchEntity(ep.id@),
            None => StepView::Failed(
                RenameErrorView::NoSuchEpisode {
                    season: request.season,
                    episode: request.episode,
                    tvshow_id: request.tvshow_id,
                },
            ),
        },
        Err(text) => StepView::Failed(RenameErrorView::Index(text@)),
    }
}

/// The step after an entity was fetched: none.
pub open spec fn fetched_step(
    id: Seq<char>,
    reply: Result<Option<MediaEntity>, String>,
) -> StepView {
    match reply {
        Ok(Some(entity)) => StepView::Found(entity),
        Ok(None) => StepView::Failed(RenameErrorView::NoSuchEntity(id)),
        Err(text) => StepView::Failed(RenameErrorView::Index(text@)),
    }
}

/// The first episode of a list that has a given number.
pub open spec fn first_numbered(episodes: Seq<Episode>, number: u32) -> Option<Episode>
    decreases episodes.len(),
{
    if episodes.len() == 0 {
        None
    } else if episodes[0].episode == Some(number) {
        Some(episodes[0])
    } else {
        first_numbered(episodes.skip(1), number)
    }
}

impl RenamerView {
    /// The episode that a base name tells of.
    pub open spec fn episode_parts(self, name: Seq<char>) -> Result<
        Option<CandidateEpisodeView>,
        RenameErrorView,
    > {
        candidate::episode_of(
            name,
            patterns::group_capture(patterns::first_match(self.season, name), "season"@),
            patterns::source(self.season),
            patterns::group_capture(patterns::first_match(self.episode, name), "episode"@),
            patterns::source(self.episode),
        )
    }

    /// What a base name seems to be: an episode, or else anything with a year, or else
    /// unknown.
    pub open spec fn kind_of(self, name: Seq<char>) -> Result<CandidateKindView, RenameErrorView> {
        match self.episode_parts(name) {
            Err(e) => Err(e),
            Ok(Some(episode)) => Ok(CandidateKindView::Episode(episode)),
            Ok(None) => candidate::titled_of(
                name,
                patterns::group_capture(patterns::first_match(self.year, name), "year"@),
                patterns::source(self.year),
            ),
        }
    }

    /// The candidate that a path gives.
    pub open spec fn candidate(self, path: Seq<u8>, is_dir: bool) -> Result<
        CandidateView,
        RenameErrorView,
    > {
        match candidate::path_parts(
            path,
            paths::parent_bytes(path),
            paths::name_bytes(path),
            is_dir,
        ) {
            Err(e) => Err(e),
            Ok(parts) => match self.kind_of(parts.base_name) {
                Err(e) => Err(e),
                Ok(kind) => Ok(CandidateView { path: parts, kind }),
            },
        }
    }

    /// The query for a title and a year.
    pub open spec fn any_query(self, candidate: CandidateAnyView) -> QueryView {
        QueryView {
            name: text::trim(text::dots_to_spaces(candidate.title)),
            year_ge: Some(candidate.year),
            year_le: Some(candidate.year),
            kinds: any_kinds(),
            votes_ge: Some(self.min_votes),
        }
    }

    /// The query for the TV show of an episode.
    pub open spec fn tvshow_query(self, candidate: CandidateEpisodeView) -> QueryView {
        QueryView {
            name: text::trim(text::dots_to_spaces(candidate.tvshow_title)),
            year_ge: None,
            year_le: None,
            kinds: tvshow_kinds(),
            votes_ge: Some(self.min_votes),
        }
    }

    /// The step to a query's results: no search where they are remembered.
    pub open spec fn search_step(self, query: QueryView) -> StepView {
        if self.results.contains_key(query) {
            StepView::Choose(query)
        } else {
            StepView::Search(query)
        }
    }

    /// The step to a query's entity: none where one was chosen before.
    pub open spec fn choose_step(self, query: QueryView) -> StepView {
        if self.choices.contains_key(query) {
            StepView::Found(self.choices[query])
        } else {
            self.search_step(query)
        }
    }

    /// What a search comes to: the results that are remembered of the query, or else the
    /// reply.
    pub open spec fn search_outcome(
        self,
        query: QueryView,
        reply: Result<SearchResults, String>,
    ) -> Result<SearchResults, String> {
        if self.results.contains_key(query) {
            Ok(self.results[query])
        } else {
            reply
        }
    }

    /// What the best results of a query come to: the entity that was chosen for it before,
    /// or else what is picked of its results.
    pub open spec fn pick_outcome(self, query: QueryView, leads: bool) -> Pick {
        if self.choices.contains_key(query) {
            Pick::Take(self.choices[query])
        } else if self.results.contains_key(query) {
            self.results[query].picked(leads)
        } else {
            Pick::Nothing
        }
    }

    /// What a choice comes to: the entity that was chosen for the query before, or else the
    /// reply.
    pub open spec fn choice_outcome(
        self,
        query: QueryView,
        reply: Result<MediaEntity, String>,
    ) -> Result<MediaEntity, String> {
        if self.choices.contains_key(query) {
            Ok(self.choices[query])
        } else {
            reply
        }
    }

    /// The renamer after a search: it remembers the results, unless it remembered some
    /// before.
    pub open spec fn after_search(
        self,
        query: QueryView,
        reply: Result<SearchResults, String>,
    ) -> RenamerView {
        match self.search_outcome(query, reply) {
            Ok(results) => RenamerView { results: self.results.insert(query, results), ..self },
            Err(_) => self,
        }
    }

    /// The renamer after the best results of a query were compared: it remembers the one
    /// that was picked.
    pub open spec fn after_pick(self, query: QueryView, leads: bool) -> RenamerView {
        match self.pick_outcome(query, leads) {
            Pick::Take(entity) => RenamerView {
                choices: self.choices.insert(query, entity),
                ..self
            },
            _ => self,
        }
    }

    /// The renamer after an entity was chosen: it remembers the choice, unless it
    /// remembered one before.
    pub open spec fn after_choice(
        self,
        query: QueryView,
        reply: Result<MediaEntity, String>,
    ) -> RenamerView {
        match self.choice_outcome(query, reply) {
            Ok(entity) => RenamerView { choices: self.choices.insert(query, entity), ..self },
            Err(_) => self,
        }
    }

    /// The step to the entity for a title and a year.
    pub open spec fn any_step(self, candidate: CandidateAnyView) -> StepView {
        match self.force {
            Some(entity) => StepView::Found(entity),
            None => self.choose_step(self.any_query(candidate)),
        }
    }

    /// The step to the TV show of an episode.
    pub open spec fn tvshow_step(self, candidate: CandidateEpisodeView) -> StepView {
        match self.force {
            Some(entity) => if entity.title.kind.has_episodes() {
                StepView::Found(entity)
            } else {
                StepView::Failed(RenameErrorView::NotTvShow(entity.title.kind))
            },
            None => self.choose_step(self.tvshow_query(candidate)),
        }
    }

    /// The step to the entity of an episode: to the episode once the TV show is known.
    pub open spec fn episode_entity_step(self, candidate: CandidateEpisodeView) -> StepView {
        match self.tvshow_step(candidate) {
            StepView::Found(tvshow) => episode_step(tvshow, candidate),
            step => step,
        }
    }

    /// The step to the entity for a path of which nothing is known.
    pub open spec fn unknown_step(self) -> StepView {
        match self.force {
            Some(entity) => StepView::Found(entity),
            None => StepView::Failed(RenameErrorView::NoOverride),
        }
    }

    /// The first step to the entity for a candidate.
    pub open spec fn first_step(self, kind: CandidateKindView) -> StepView {
        match kind {
            CandidateKindView::Any(candidate) => self.any_step(candidate),
            CandidateKindView::Episode(candidate) => self.episode_entity_step(candidate),
            CandidateKindView::Unknown => self.unknown_step(),
        }
    }
}

impl Renamer {
    /// Begins to look for the entity that the file at a path holds: reads a candidate off
    /// the path, and says what to do first. Where this leads to an entity,
    /// [`Candidate::proposal`] makes the proposal for the path.
    pub fn propose_one(&self, path: &PathBuf, is_dir: bool) -> (r: Result<
        (Candidate, Step),
        RenameError,
    >)
        ensures
            match self@.candidate(paths::path_bytes(*path), is_dir) {
                Ok(candidate) => r matches Ok((c, step)) && c@ == candidate && step@
                    == self@.first_step(candidate.kind) && candidate.title_leads(),
                Err(e) => r matches Err(found) && found@ == e,
            },
    {
        match self.candidate(path, is_dir) {
            Err(e) => Err(e),
            Ok(candidate) => {
                let step = self.find(&candidate.kind);
                Ok((candidate, step))
            },
        }
    }

    /// Reads a candidate off a path. Whether the path is a directory is for the caller to
    /// find out.
    pub fn candidate(&self, path: &PathBuf, is_dir: bool) -> (r: Result<Candidate, RenameError>)
        ensures
            error::viewed(r) == self@.candidate(paths::path_bytes(*path), is_dir),
            r matches Ok(c) ==> c@.title_leads(),
    {
        let cpath = match CandidatePath::from_path(path, is_dir) {
            Err(e) => return Err(e),
            Ok(cpath) => cpath,
        };
        match self.episode_parts(&cpath) {
            Err(e) => return Err(e),
            Ok(Some(cepisode)) => {
                return Ok(Candidate { path: cpath, kind: CandidateKind::Episode(cepisode) });
            },
            Ok(None) => {},
        }
        let name = cpath.base_name.as_str();
        let year = patterns::capture(&self.year, name, "year");
        proof {
            if let CaptureView::Group(start, part) = year@ {
                candidate::lemma_text_before(name@, start, part);
            }
        }
        match CandidateKind::from_year(name, year, patterns::pattern_of(&self.year)) {
            Err(e) => Err(e),
            Ok(kind) => Ok(Candidate { path: cpath, kind }),
        }
    }

    /// Reads an episode off the base name of a path, where it tells of one.
    pub fn episode_parts(&self, cpath: &CandidatePath) -> (r: Result<
        Option<CandidateEpisode>,
        RenameError,
    >)
        ensures
            error::viewed_option(r) == self@.episode_parts(cpath@.base_name),
            r matches Ok(Some(e)) ==> e.tvshow_title@.is_prefix_of(cpath@.base_name),
    {
        let name = cpath.base_name.as_str();
        let season = patterns::capture(&self.season, name, "season");
        let episode = patterns::capture(&self.episode, name, "episode");
        proof {
            if let CaptureView::Group(start, part) = season@ {
                candidate::lemma_text_before(name@, start, part);
            }
        }
        CandidateEpisode::from_captures(
            name,
            season,
            patterns::pattern_of(&self.season),
            episode,
            patterns::pattern_of(&self.episode),
        )
    }

    /// The first step to the entity for a candidate.
    pub fn find(&self, kind: &CandidateKind) -> (r: Step)
        ensures
            r@ == self@.first_step(kind@),
    {
        match kind {
            CandidateKind::Any(x) => self.find_any(x),
            CandidateKind::Episode(x) => self.find_episode(x),
            CandidateKind::Unknown => self.find_unknown(),
        }
    }

    /// The first step to the entity for a title and a year: the entity that is used for
    /// every path, where one is given, or else a search.
    pub fn find_any(&self, candidate: &CandidateAny) -> (r: Step)
        ensures
            r@ == self@.any_step(candidate@),
    {
        if let Some(entity) = &self.force {
            return Step::Found(entity.clone());
        }
        let mut query = self.name_query(candidate.title.as_str());
        query.year_ge = Some(candidate.year);
        query.year_le = Some(candidate.year);
        query.kinds =
        vec![
            TitleKind::Movie,
            TitleKind::Short,
            TitleKind::TVMiniSeries,
            TitleKind::TVMovie,
            TitleKind::TVSeries,
            TitleKind::TVShort,
            TitleKind::TVSpecial,
            TitleKind::Video,
        ];
        query.votes_ge = Some(self.min_votes);
        assert(query@ =~= self@.any_query(candidate@));
        self.choose_one(query)
    }

    /// The first step to the entity of an episode. The candidate's title is the TV show's:
    /// that is found first, and the episode among its episodes.
    pub fn find_episode(&self, candidate: &CandidateEpisode) -> (r: Step)
        ensures
            r@ == self@.episode_entity_step(candidate@),
    {
        match self.find_tvshow_for_episode(candidate) {
            Step::Found(tvshow) => candidate.in_tvshow(&tvshow),
            step => step,
        }
    }

    /// The first step to the TV show of an episode: the entity that is used for every path,
    /// where one is given, or else a search. An entity that is no TV show will not do.
    pub fn find_tvshow_for_episode(&self, candidate: &CandidateEpisode) -> (r: Step)
        ensures
            r@ == self@.tvshow_step(candidate@),
    {
        if let Some(entity) = &self.force {
            if !entity.title.kind.is_tv_series() {
                return Step::Failed(RenameError::NotTvShow(entity.title.kind));
            }
            return Step::Found(entity.clone());
        }
        let mut query = self.name_query(candidate.tvshow_title.as_str());
        query.kinds = vec![TitleKind::TVMiniSeries, TitleKind::TVSeries];
        query.votes_ge = Some(self.min_votes);
        assert(query@ =~= self@.tvshow_query(candidate@));
        self.choose_one(query)
    }

    /// The step for a path of which nothing is known: the entity that is used for every
    /// path, or an error where none is given.
    pub fn find_unknown(&self) -> (r: Step)
        ensures
            r@ == self@.unknown_step(),
    {
        match &self.force {
            Some(entity) => Step::Found(entity.clone()),
            None => Step::Failed(RenameError::NoOverride),
        }
    }

    /// A query for a name, as it is written in a file name.
    pub fn name_query(&self, name: &str) -> (r: Query)
        ensures
            r@ == (QueryView {
                name: text::trim(text::dots_to_spaces(name@)),
                year_ge: None,
                year_le: None,
                kinds: Seq::empty(),
                votes_ge: None,
            }),
    {
        Query {
            name: text::sanitize(name),
            year_ge: None,
            year_le: None,
            kinds: Vec::new(),
            votes_ge: None,
        }
    }

    /// The step to a query's entity: none where one was chosen before.
    pub fn choose_one(&self, query: Query) -> (r: Step)
        ensures
            r@ == self@.choose_step(query@),
    {
        match self.choose_cache.get(&query) {
            Some(entity) => Step::Found(entity.clone()),
            None => self.search(query),
        }
    }

    /// The step to a query's results: no search where they are remembered.
    pub fn search(&self, query: Query) -> (r: Step)
        ensures
            r@ == self@.search_step(query@),
    {
        match self.cache.get(&query) {
            Some(_) => Step::Choose(query),
            None => Step::Search(query),
        }
    }

    /// The remembered results of a query.
    pub fn results(&self, query: &Query) -> (r: Option<&SearchResults>)
        ensures
            r is Some <==> self@.results.contains_key(query@),
            r matches Some(results) ==> *results == self@.results[query@],
    {
        self.cache.get(query)
    }

    /// The bits of the threshold for choosing a result unasked.
    pub fn good_threshold(&self) -> (r: u64)
        ensures
            r == self@.good_threshold,
    {
        self.good_threshold
    }

    /// Goes on after a search: remembers the results, for one of them to be chosen. Results
    /// that are remembered of the query stay.
    pub fn searched(&mut self, query: Query, reply: Result<SearchResults, String>) -> (r: Step)
        ensures
            r@ == searched_step(query@, old(self)@.search_outcome(query@, reply)),
            final(self)@ == old(self)@.after_search(query@, reply),
    {
        if let Some(_) = self.cache.get(&query) {
            assert(self@.after_search(query@, reply) =~= self@);
            return Step::Choose(query);
        }
        match reply {
            Err(text) => Step::Failed(RenameError::Search(text)),
            Ok(results) => {
                let asked = query.duplicate();
                self.cache.insert(query, results);
                Step::Choose(asked)
            },
        }
    }

    /// Goes on after the scores of a query's two best results were compared: takes the only
    /// result, or the first where it leads the second clearly enough, and remembers it. An
    /// entity that was chosen for the query before stays.
    pub fn compared(&mut self, kind: &CandidateKind, query: Query, leads: bool) -> (r: Step)
        ensures
            r@ == picked_step(kind@, query@, old(self)@.pick_outcome(query@, leads)),
            final(self)@ == old(self)@.after_pick(query@, leads),
    {
        if let Some(entity) = self.choose_cache.get(&query) {
            assert(self@.after_pick(query@, leads) =~= self@);
            return kind.with_entity(entity.clone());
        }
        let pick = match self.cache.get(&query) {
            Some(results) => results.pick(leads),
            None => Pick::Nothing,
        };
        match pick {
            Pick::Nothing => Step::Failed(RenameError::NoResults),
            Pick::Take(entity) => {
                self.choose_cache.insert(query, entity.clone());
                kind.with_entity(entity)
            },
            Pick::Ask => Step::Ask(query),
        }
    }

    /// Goes on after one of a query's results was chosen for a candidate: remembers the
    /// choice. It is the candidate's entity, or an episode's TV show. An entity that was
    /// chosen for the query before stays.
    pub fn chosen(
        &mut self,
        kind: &CandidateKind,
        query: Query,
        reply: Result<MediaEntity, String>,
    ) -> (r: Step)
        ensures
            r@ == chosen_step(kind@, old(self)@.choice_outcome(query@, reply)),
            final(self)@ == old(self)@.after_choice(query@, reply),
    {
        if let Some(entity) = self.choose_cache.get(&query) {
            assert(self@.after_choice(query@, reply) =~= self@);
            return kind.with_entity(entity.clone());
        }
        match reply {
            Err(text) => Step::Failed(RenameError::Search(text)),
            Ok(entity) => {
                self.choose_cache.insert(query, entity.clone());
                kind.with_entity(entity)
            },
        }
    }
}

impl CandidateKind {
    /// The step once a query's entity is known.
    pub fn with_entity(&self, entity: MediaEntity) -> (r: Step)
        ensures
            r@ == entity_step(self@, entity),
    {
        match self {
            CandidateKind::Episode(candidate) => candidate.in_tvshow(&entity),
            _ => Step::Found(entity),
        }
    }
}

impl Candidate {
    /// The proposal to rename the file at a path after an entity. What [`to_path`] says of
    /// the new path holds of its destination.
    ///
    /// [`to_path`]: CandidatePath::to_path
    pub fn proposal(&self, src: &PathBuf, entity: &MediaEntity) -> (r: RenameProposal)
        ensures
            r.src == *src,
            r.dst_bytes() == paths::joined_bytes(
                self@.path.parent,
                self@.path.new_name(*entity),
            ),
            paths::plain_start(self@.path.parent) && paths::lone_name(self@.path.new_name(*entity))
                ==> self@.path.ends_in_new_name(r.dst_bytes(), *entity),
            forall|is_dir: bool|
                self@.path.ends_in_new_name(r.dst_bytes(), *entity) && self@.path.splits_alike(
                    *entity,
                    is_dir,
                ) ==> #[trigger] self@.path.kept_by(r.dst_bytes(), *entity, is_dir),
    {
        RenameProposal { src: src.clone(), dst: self.path.to_path(entity) }
    }
}

impl CandidateEpisode {
    /// The step to the episode once its TV show is known.
    pub fn in_tvshow(&self, tvshow: &MediaEntity) -> (r: Step)
        ensures
            r@ == episode_step(*tvshow, self@),
    {
        Step::ListEpisodes(
            EpisodeRequest {
                tvshow_id: tvshow.title.id.clone(),
                season: self.season,
                episode: self.episode,
            },
        )
    }
}

impl EpisodeRequest {
    /// Goes on after the episodes of the season were listed: to the first of them that has
    /// the number wished for.
    pub fn listed(self, reply: Result<Vec<Episode>, String>) -> (r: Step)
        ensures
            r@ == listed_step(self@, reply),
    {
        let episodes = match reply {
            Err(text) => return Step::Failed(RenameError::Index(text)),
            Ok(episodes) => episodes,
        };
        assert(episodes@.skip(0) =~= episodes@);
        for i in 0..episodes.len()
            invariant
                reply == Ok::<Vec<Episode>, String>(episodes),
                first_numbered(episodes@, self.episode) == first_numbered(
                    episodes@.skip(i as int),
                    self.episode,
                ),
        {
            assert(episodes@.skip(i as int).skip(1) =~= episodes@.skip(i + 1));
            if let Some(number) = episodes[i].episode {
                if number == self.episode {
                    return Step::FetchEntity(episodes[i].id.clone());
                }
            }
        }
        Step::Failed(
            RenameError::NoSuchEpisode {
                season: self.season,
                episode: self.episode,
                tvshow_id: self.tvshow_id,
            },
        )
    }
}

impl Step {
    /// Goes on after the entity of an identifier was fetched.
    pub fn fetched(id: String, reply: Result<Option<MediaEntity>, String>) -> (r: Step)
        ensures
            r@ == fetched_step(id@, reply),
    {
        match reply {
            Err(text) => Step::Failed(RenameError::Index(text)),
            Ok(Some(entity)) => Step::Found(entity),
            Ok(None) => Step::Failed(RenameError::NoSuchEntity(id)),
        }
    }
}

/// A builder for configuring a renamer.
#[derive(Debug)]
pub struct RenamerBuilder {
    force: Option<MediaEntity>,
    min_votes: u32,
    good_threshold: u64,
    regex_episode: String,
    regex_season: String,
    regex_year: String,
}

/// A renamer's configuration as a mathematical value.
#[verifier::ext_equal]
pub struct RenamerBuilderView {
    /// The entity to be used for every path, where one is given.
    pub force: Option<MediaEntity>,
    /// The least number of votes.
    pub min_votes: u32,
    /// The bits of the threshold for choosing a result unasked.
    pub good_threshold: u64,
    /// The pattern for the number of an episode.
    pub regex_episode: Seq<char>,
    /// The pattern for the number of a season.
    pub regex_season: Seq<char>,
    /// The pattern for a year.
    pub regex_year: Seq<char>,
}

impl View for RenamerBuilder {
    type V = RenamerBuilderView;

    closed spec fn view(&self) -> RenamerBuilderView {
        RenamerBuilderView {
            force: self.force,
            min_votes: self.min_votes,
            good_threshold: self.good_threshold,
            regex_episode: self.regex_episode@,
            regex_season: self.regex_season@,
            regex_year: self.regex_year@,
        }
    }
}

impl RenamerBuilderView {
    /// The default configuration. The threshold is a quarter.
    pub open spec fn defaults() -> RenamerBuilderView {
        RenamerBuilderView {
            force: None,
            min_votes: 1000,
            good_threshold: 0x3fd0_0000_0000_0000,
            regex_episode: "[Ee](?P<episode>[0-9]+)"@,
            regex_season: "[Ss](?P<season>[0-9]+)"@,
            regex_year: "\\b(?P<year>[0-9]{4})\\b"@,
        }
    }

    /// The renamer of this configuration, which remembers nothing yet, or why the first of
    /// the patterns that does not compile does not.
    pub open spec fn built(self) -> Result<RenamerView, RenameErrorView> {
        match (
            patterns::compiled(self.regex_episode),
            patterns::compiled(self.regex_season),
            patterns::compiled(self.regex_year),
        ) {
            (Err(e), _, _) => Err(RenameErrorView::Pattern(e)),
            (_, Err(e), _) => Err(RenameErrorView::Pattern(e)),
            (_, _, Err(e)) => Err(RenameErrorView::Pattern(e)),
            (Ok(episode), Ok(season), Ok(year)) => Ok(
                RenamerView {
                    results: Map::empty(),
                    choices: Map::empty(),
                    force: self.force,
                    min_votes: self.min_votes,
                    good_threshold: self.good_threshold,
                    episode,
                    season,
                    year,
                },
            ),
        }
    }
}

/// A copy of an entity that may be missing.
fn copy_entity(entity: &Option<MediaEntity>) -> (r: Option<MediaEntity>)
    ensures
        r == *entity,
{
    match entity {
        Some(entity) => Some(entity.clone()),
        None => None,
    }
}

impl Clone for RenamerBuilder {
    fn clone(&self) -> (r: Self)
        ensures
            r == *self,
    {
        RenamerBuilder {
            force: copy_entity(&self.force),
            min_votes: self.min_votes,
            good_threshold: self.good_threshold,
            regex_episode: self.regex_episode.clone(),
            regex_season: self.regex_season.clone(),
            regex_year: self.regex_year.clone(),
        }
    }
}

impl RenamerBuilder {
    /// Creates a builder with the default configuration.
    pub fn new() -> (r: RenamerBuilder)
        ensures
            r@ == RenamerBuilderView::defaults(),
    {
        RenamerBuilder {
            force: None,
            min_votes: 1000,
            good_threshold: 0x3fd0_0000_0000_0000,
            regex_episode: "[Ee](?P<episode>[0-9]+)".to_owned(),
            regex_season: "[Ss](?P<season>[0-9]+)".to_owned(),
            regex_year: "\\b(?P<year>[0-9]{4})\\b".to_owned(),
        }
    }

    /// Builds a renamer of the current configuration, or says which pattern does not
    /// compile.
    pub fn build(&self) -> (r: Result<Renamer, RenameError>)
        ensures
            error::viewed(r) == self@.built(),
    {
        let episode = match patterns::compile(self.regex_episode.as_str()) {
            Err(e) => return Err(RenameError::Pattern(e)),
            Ok(regex) => regex,
        };
        let season = match patterns::compile(self.regex_season.as_str()) {
            Err(e) => return Err(RenameError::Pattern(e)),
            Ok(regex) => regex,
        };
        let year = match patterns::compile(self.regex_year.as_str()) {
            Err(e) => return Err(RenameError::Pattern(e)),
            Ok(regex) => regex,
        };
        Ok(
            Renamer {
                cache: QueryCache::new(),
                choose_cache: QueryCache::new(),
                force: copy_entity(&self.force),
                min_votes: self.min_votes,
                good_threshold: self.good_threshold,
                episode,
                season,
                year,
            },
        )
    }

    /// Uses the given entity for every path, so that no path leads to a search.
    ///
    /// For a path that is an episode's, the entity is taken for the TV show; it is an
    /// error if it is none.
    pub fn force(&mut self, entity: MediaEntity) -> (r: &mut RenamerBuilder)
        ensures
            (*r)@ == (RenamerBuilderView { force: Some(entity), ..old(self)@ }),
            *final(self) == *final(r),
    {
        self.force = Some(entity);
        self
    }

    /// Sets the least number of votes that whatever is searched for must have. It keeps
    /// noise out of what is found.
    pub fn min_votes(&mut self, min_votes: u32) -> (r: &mut RenamerBuilder)
        ensures
            (*r)@ == (RenamerBuilderView { min_votes, ..old(self)@ }),
            *final(self) == *final(r),
    {
        self.min_votes = min_votes;
        self
    }

    /// Sets the threshold for choosing a result unasked, by the bits of a 64-bit
    /// floating-point number.
    ///
    /// Where the score of the first result is above that of the second by this much or
    /// more, the first result is to be chosen. Otherwise the user is to be asked.
    pub fn good_threshold(&mut self, threshold: u64) -> (r: &mut RenamerBuilder)
        ensures
            (*r)@ == (RenamerBuilderView { good_threshold: threshold, ..old(self)@ }),
            *final(self) == *final(r),
    {
        self.good_threshold = threshold;
        self
    }

    /// Sets the pattern for the number of an episode, which its group `episode` captures.
    /// It is searched for in the base name of a path.
    pub fn regex_episode(&mut self, pattern: &str) -> (r: &mut RenamerBuilder)
        ensures
            (*r)@ == (RenamerBuilderView { regex_episode: pattern@, ..old(self)@ }),
            *final(self) == *final(r),
    {
        self.regex_episode = pattern.to_owned();
        self
    }

    /// Sets the pattern for the number of a season, which its group `season` captures.
    /// It is searched for in the base name of a path.
    pub fn regex_season(&mut self, pattern: &str) -> (r: &mut RenamerBuilder)
        ensures
            (*r)@ == (RenamerBuilderView { regex_season: pattern@, ..old(self)@ }),
            *final(self) == *final(r),
    {
        self.regex_season = pattern.to_owned();
        self
    }

    /// Sets the pattern for a year, which its group `year` captures. It is searched for in
    /// the base name of a path.
    pub fn regex_year(&mut self, pattern: &str) -> (r: &mut RenamerBuilder)
        ensures
            (*r)@ == (RenamerBuilderView { regex_year: pattern@, ..old(self)@ }),
            *final(self) == *final(r),
    {
        self.regex_year = pattern.to_owned();
        self
    }
}

impl Default for RenamerBuilder {
    fn default() -> (r: RenamerBuilder)
        ensures
            r@ == RenamerBuilderView::defaults(),
    {
        RenamerBuilder::new()
    }
}

} // verus!
