//! What holds of the library as a whole.
use crate::candidate;
use crate::candidate::{CandidateKindView, CandidatePathView};
use crate::entity::{Episode, MediaEntity, Pick, SearchResults, TitleKind};
use crate::error::RenameErrorView;
use crate::paths;
use crate::patterns;
use crate::proposal;
use crate::proposal::{Attempt, Measure, Probed, RenameProposal};
use crate::query::QueryView;
use crate::renamer;
use crate::renamer::{EpisodeRequestView, RenamerView, StepView};
use crate::text;
use vstd::prelude::*;
use vstd::utf8::*;

pub mod asking;
pub mod naming;
pub mod reading;
pub mod settling;
pub mod texts;

verus! {

/// Where an entity is given to be used for every path, no path leads to a search: the
/// entity is the one for the path or, for an episode's path, the TV show in which the
/// episode is looked up. An episode's path fails where the entity is no TV show.
pub proof fn law_given_entity_is_used(r: RenamerView, kind: CandidateKindView, entity: MediaEntity)
    requires
        r.force == Some(entity),
    ensures
        r.first_step(kind) == match kind {
            CandidateKindView::Episode(candidate) => if entity.title.kind.has_episodes() {
                renamer::episode_step(entity, candidate)
            } else {
                StepView::Failed(RenameErrorView::NotTvShow(entity.title.kind))
            },
            _ => StepView::Found(entity),
        },
        !(r.first_step(kind) is Search),
        !(r.first_step(kind) is Choose),
        !(r.first_step(kind) is Ask),
{
}

/// A name tells of one of three things. It is an episode's only where both the season's
/// and the episode's group were captured, whether or not it has a year; it is a title with
/// a year only where the year's group was captured; and it is unknown if and only if it
/// does not match both patterns for an episode, nor that for a year.
pub proof fn law_a_name_tells_one_of_three_things(r: RenamerView, name: Seq<char>)
    ensures
        ({
            let season = patterns::group_capture(
                patterns::first_match(r.season, name),
                "season"@,
            );
            let episode = patterns::group_capture(
                patterns::first_match(r.episode, name),
                "episode"@,
            );
            let year = patterns::group_capture(patterns::first_match(r.year, name), "year"@);
            &&& r.kind_of(name) matches Ok(CandidateKindView::Episode(_)) ==> season is Group
                && episode is Group
            &&& r.kind_of(name) matches Ok(CandidateKindView::Any(_)) ==> year is Group && (
            season is NoMatch || episode is NoMatch)
            &&& r.kind_of(name) == Ok::<_, RenameErrorView>(CandidateKindView::Unknown) <==> (
            season is NoMatch || episode is NoMatch) && year is NoMatch
        }),
{
}

/// Whatever is searched for must have the least number of votes that was set, and may be
/// neither an episode nor a video game.
pub proof fn law_queries_are_restricted(r: RenamerView, kind: CandidateKindView)
    ensures
        match r.first_step(kind) {
            StepView::Search(q) | StepView::Choose(q) | StepView::Ask(q) => {
                &&& q.votes_ge == Some(r.min_votes)
                &&& q.kinds.len() > 0
                &&& !q.kinds.contains(TitleKind::TVEpisode)
                &&& !q.kinds.contains(TitleKind::VideoGame)
            },
            _ => true,
        },
{
}

/// One thing that a renamer is told of a query.
pub enum Told {
    /// What a search found.
    Searched(QueryView, Result<SearchResults, String>),
    /// Whether the first result leads the second clearly enough.
    Compared(QueryView, bool),
    /// What was chosen.
    Chosen(QueryView, Result<MediaEntity, String>),
}

impl RenamerView {
    /// The renamer after it was told one thing.
    pub open spec fn after(self, told: Told) -> RenamerView {
        match told {
            Told::Searched(query, reply) => self.after_search(query, reply),
            Told::Compared(query, leads) => self.after_pick(query, leads),
            Told::Chosen(query, reply) => self.after_choice(query, reply),
        }
    }

    /// The renamer after it was told one thing after the other.
    pub open spec fn after_all(self, told: Seq<Told>) -> RenamerView
        decreases told.len(),
    {
        if told.len() == 0 {
            self
        } else {
            self.after_all(told.drop_last()).after(told.last())
        }
    }

    /// Whether this renamer is configured like another one, and remembers all that the
    /// other one does, with the same values.
    pub open spec fn remembers(self, other: RenamerView) -> bool {
        &&& forall|q: QueryView| #[trigger]
            other.results.contains_key(q) ==> self.results.contains_key(q) && self.results[q]
                == other.results[q]
        &&& forall|q: QueryView| #[trigger]
            other.choices.contains_key(q) ==> self.choices.contains_key(q) && self.choices[q]
                == other.choices[q]
        &&& self == (RenamerView { results: self.results, choices: self.choices, ..other })
    }
}

/// A renamer forgets nothing and changes nothing of what it remembers, whatever it is told.
pub proof fn law_nothing_is_forgotten(r: RenamerView, told: Seq<Told>)
    ensures
        r.after_all(told).remembers(r),
    decreases told.len(),
{
    if told.len() > 0 {
        law_nothing_is_forgotten(r, told.drop_last());
    }
}

/// A query that was searched is not searched again, and the results that were found first
/// stay, whatever else the renamer is told.
pub proof fn law_no_query_is_searched_twice(
    r: RenamerView,
    query: QueryView,
    results: SearchResults,
    told: Seq<Told>,
)
    ensures
        ({
            let later = r.after_search(query, Ok(results)).after_all(told);
            &&& later.results.contains_key(query)
            &&& later.results[query] == if r.results.contains_key(query) {
                r.results[query]
            } else {
                results
            }
            &&& later.search_step(query) == StepView::Choose(query)
            &&& !(later.choose_step(query) is Search)
        }),
{
    let found = r.after_search(query, Ok(results));
    law_nothing_is_forgotten(found, told);
    assert(found.results.contains_key(query));
}

/// A query for which an entity was chosen is answered with that entity from then on, without
/// a search and without asking, whatever else the renamer is told, of this query too.
pub proof fn law_a_choice_stands(
    r: RenamerView,
    query: QueryView,
    entity: MediaEntity,
    told: Seq<Told>,
)
    ensures
        r.choices.contains_key(query) ==> r.after_all(told).choose_step(query)
            == StepView::Found(r.choices[query]),
        !r.choices.contains_key(query) ==> r.after_choice(query, Ok(entity)).after_all(
            told,
        ).choose_step(query) == StepView::Found(entity),
{
    law_nothing_is_forgotten(r, told);
    let chosen = r.after_choice(query, Ok(entity));
    law_nothing_is_forgotten(chosen, told);
    assert(chosen.choices.contains_key(query));
}

/// Of several results, the first one is taken where it leads the second clearly enough, and
/// remembered; otherwise the user is asked. A single result is taken unasked, and no result
/// is an error.
pub proof fn law_a_clear_result_is_taken(
    r: RenamerView,
    kind: CandidateKindView,
    query: QueryView,
    leads: bool,
)
    requires
        r.results.contains_key(query),
        !r.choices.contains_key(query),
    ensures
        ({
            let hits = r.results[query].hits@;
            let step = renamer::picked_step(kind, query, r.pick_outcome(query, leads));
            let later = r.after_pick(query, leads);
            if hits.len() == 0 {
                step == StepView::Failed(RenameErrorView::NoResults) && later == r
            } else if hits.len() == 1 || leads {
                step == renamer::entity_step(kind, hits[0].entity) && later.choose_step(query)
                    == StepView::Found(hits[0].entity)
            } else {
                step == StepView::Ask(query) && later == r
            }
        }),
{
}

impl StepView {
    /// How far a step is on the way to the entity.
    pub open spec fn stage(self) -> nat {
        match self {
            StepView::Search(_) => 0,
            StepView::Choose(_) => 1,
            StepView::Ask(_) => 2,
            StepView::ListEpisodes(_) => 3,
            StepView::FetchEntity(_) => 4,
            StepView::Found(_) => 5,
            StepView::Failed(_) => 5,
        }
    }
}

/// Each answer leads further, so that a path takes at most five answers.
pub proof fn law_every_answer_leads_further(
    query: QueryView,
    kind: CandidateKindView,
    request: EpisodeRequestView,
    id: Seq<char>,
    pick: Pick,
    found: Result<SearchResults, String>,
    choice: Result<MediaEntity, String>,
    episodes: Result<Vec<Episode>, String>,
    entity: Result<Option<MediaEntity>, String>,
)
    ensures
        renamer::searched_step(query, found).stage() > StepView::Search(query).stage(),
        renamer::picked_step(kind, query, pick).stage() > StepView::Choose(query).stage(),
        renamer::chosen_step(kind, choice).stage() > StepView::Ask(query).stage(),
        renamer::listed_step(request, episodes).stage() > StepView::ListEpisodes(request).stage(),
        renamer::fetched_step(id, entity).stage() > StepView::FetchEntity(id).stage(),
        renamer::fetched_step(id, entity).stage() == 5,
{
}

/// The episode that is taken has the number wished for, and none before it in the list
/// has.
pub proof fn law_the_first_numbered_is_taken(episodes: Seq<Episode>, number: u32)
    ensures
        match renamer::first_numbered(episodes, number) {
            Some(ep) => exists|i: int|
                0 <= i < episodes.len() && #[trigger] episodes[i] == ep && ep.episode == Some(
                    number,
                ) && forall|j: int|
                    0 <= j < i ==> (#[trigger] episodes[j]).episode != Some(number),
            None => forall|j: int|
                0 <= j < episodes.len() ==> (#[trigger] episodes[j]).episode != Some(number),
        },
    decreases episodes.len(),
{
    if episodes.len() > 0 && episodes[0].episode != Some(number) {
        let rest = episodes.skip(1);
        law_the_first_numbered_is_taken(rest, number);
        match renamer::first_numbered(episodes, number) {
            Some(ep) => {
                let i = choose|i: int|
                    0 <= i < rest.len() && #[trigger] rest[i] == ep && ep.episode == Some(number)
                        && forall|j: int|
                        0 <= j < i ==> (#[trigger] rest[j]).episode != Some(number);
                assert(episodes[i + 1] == ep);
                assert forall|j: int| 0 <= j < i + 1 implies (#[trigger] episodes[j]).episode
                    != Some(number) by {
                    if j > 0 {
                        assert(rest[j - 1] == episodes[j]);
                    }
                }
            },
            None => {
                assert forall|j: int| 0 <= j < episodes.len() implies (#[trigger]
                episodes[j]).episode != Some(number) by {
                    if j > 0 {
                        assert(rest[j - 1] == episodes[j]);
                    }
                }
            },
        }
    } else if episodes.len() > 0 {
        assert(episodes[0].episode == Some(number));
    }
}

/// The parts of a name do not overlap and leave nothing out but the dot between them. The
/// extension has no dot, and a directory has no extension.
pub proof fn law_parts_make_the_name(parent: Seq<u8>, name: Seq<char>, is_dir: bool)
    ensures
        candidate::name_parts(parent, name, is_dir).parent == parent,
        match candidate::name_parts(parent, name, is_dir).ext {
            Some(ext) => {
                &&& !is_dir
                &&& !ext.contains('.')
                &&& candidate::name_parts(parent, name, is_dir).base_name + seq!['.'] + ext == name
            },
            None => {
                &&& candidate::name_parts(parent, name, is_dir).base_name == name
                &&& is_dir || !name.contains('.')
            },
        },
{
    name.index_of_last_ensures('.');
    if let Some(i) = name.index_of_last('.') {
        let ext = name.skip(i + 1);
        assert(name.take(i) + seq!['.'] + ext =~= name);
        assert forall|k: int| 0 <= k < ext.len() implies ext[k] != '.' by {
            assert(name[i + 1 + k] != '.');
        }
    }
}

/// A file keeps its extension: the new name splits into the entity's name and the
/// extension that the file had.
pub proof fn law_the_extension_is_kept(
    parent: Seq<u8>,
    name: Seq<char>,
    is_dir: bool,
    entity: MediaEntity,
)
    requires
        candidate::name_parts(parent, name, is_dir).ext is Some,
    ensures
        candidate::name_parts(
            parent,
            candidate::name_parts(parent, name, is_dir).new_name(entity),
            is_dir,
        ) == (CandidatePathView {
            base_name: candidate::entity_name(entity),
            ..candidate::name_parts(parent, name, is_dir)
        }),
{
    law_parts_make_the_name(parent, name, is_dir);
    candidate::lemma_new_name_splits(
        candidate::name_parts(parent, name, is_dir),
        parent,
        entity,
        is_dir,
    );
}

/// A file that is named after an entity already gets the name that it has.
pub proof fn law_a_right_name_stays(parts: CandidatePathView, entity: MediaEntity)
    requires
        candidate::entity_name(entity) == parts.base_name,
    ensures
        parts.new_name(entity) == parts.name(),
{
}

/// The title that is read off a name is all the text before what was captured: the name
/// starts with the title, and what was captured follows.
pub proof fn law_the_title_leads_the_name(name: Seq<char>, start: nat, part: Seq<char>)
    requires
        patterns::stands_at(name, start, part),
    ensures
        (candidate::text_before(name, start) + part).is_prefix_of(name),
        encode_utf8(candidate::text_before(name, start)).len() == start,
{
    candidate::lemma_text_before(name, start, part);
}

/// A name that is searched for has no dot, and no white space around it.
pub proof fn law_searched_names_are_clean(name: Seq<char>)
    ensures
        !text::trim(text::dots_to_spaces(name)).contains('.'),
        text::trim(text::dots_to_spaces(name)).len() > 0 ==> !text::white_space(
            text::trim(text::dots_to_spaces(name))[0],
        ) && !text::white_space(text::trim(text::dots_to_spaces(name)).last()),
{
    let s = text::dots_to_spaces(name);
    assert forall|i: int| 0 <= i < s.len() implies s[i] != '.' by {}
    lemma_trim_start(s);
    lemma_trim_end(text::trim_start(s));
}

proof fn lemma_trim_start(s: Seq<char>)
    ensures
        exists|k: int| 0 <= k <= s.len() && #[trigger] s.skip(k) == text::trim_start(s),
        text::trim_start(s).len() > 0 ==> !text::white_space(text::trim_start(s)[0]),
    decreases s.len(),
{
    if s.len() > 0 && text::white_space(s[0]) {
        lemma_trim_start(s.skip(1));
        let k = choose|k: int|
            0 <= k <= s.skip(1).len() && #[trigger] s.skip(1).skip(k) == text::trim_start(
                s.skip(1),
            );
        assert(s.skip(k + 1) =~= s.skip(1).skip(k));
    } else {
        assert(s.skip(0) =~= s);
    }
}

proof fn lemma_trim_end(s: Seq<char>)
    ensures
        exists|k: int| 0 <= k <= s.len() && #[trigger] s.take(k) == text::trim_end(s),
        text::trim_end(s).len() > 0 ==> !text::white_space(text::trim_end(s).last()),
    decreases s.len(),
{
    if s.len() > 0 && text::white_space(s.last()) {
        lemma_trim_end(s.drop_last());
        let k = choose|k: int|
            0 <= k <= s.drop_last().len() && #[trigger] s.drop_last().take(k) == text::trim_end(
                s.drop_last(),
            );
        assert(s.take(k) =~= s.drop_last().take(k));
    } else {
        assert(s.take(s.len() as int) =~= s);
    }
}

/// Proposals stand together if and only if no destination repeats an earlier one and none
/// is taken.
pub proof fn law_nothing_is_overwritten(probed: Seq<Probed>)
    ensures
        proposal::first_fault(probed) is None <==> forall|i: int|
            0 <= i < probed.len() ==> !(#[trigger] probed[i]).dst_exists && !proposal::repeats(
                probed,
                i,
            ),
    decreases probed.len(),
{
    if probed.len() > 0 {
        let init = probed.drop_last();
        law_nothing_is_overwritten(init);
        assert forall|i: int| 0 <= i < init.len() implies #[trigger] proposal::repeats(init, i)
            == proposal::repeats(probed, i) by {
            if proposal::repeats(init, i) {
                let j = choose|j: int|
                    0 <= j < i && #[trigger] paths::same_path(
                        init[j].proposal.dst_bytes(),
                        init[i].proposal.dst_bytes(),
                    );
                assert(paths::same_path(
                    probed[j].proposal.dst_bytes(),
                    probed[i].proposal.dst_bytes(),
                ));
            }
            if proposal::repeats(probed, i) {
                let j = choose|j: int|
                    0 <= j < i && #[trigger] paths::same_path(
                        probed[j].proposal.dst_bytes(),
                        probed[i].proposal.dst_bytes(),
                    );
                assert(paths::same_path(
                    init[j].proposal.dst_bytes(),
                    init[i].proposal.dst_bytes(),
                ));
            }
        }
        assert forall|i: int| 0 <= i < init.len() implies #[trigger] init[i] == probed[i] by {}
        if proposal::first_fault(probed) is None {
            assert forall|i: int| 0 <= i < probed.len() implies !(#[trigger] probed[i]).dst_exists
                && !proposal::repeats(probed, i) by {
                if i < init.len() {
                    assert(init[i] == probed[i]);
                    assert(!proposal::repeats(init, i));
                }
            }
        } else if forall|i: int|
            0 <= i < probed.len() ==> !(#[trigger] probed[i]).dst_exists && !proposal::repeats(
                probed,
                i,
            ) {
            assert forall|i: int| 0 <= i < init.len() implies !(#[trigger] init[i]).dst_exists
                && !proposal::repeats(init, i) by {
                assert(init[i] == probed[i]);
            }
            assert(!probed[probed.len() - 1].dst_exists);
        }
    }
}

/// The proposals that are settled on are those that change something: none is added, lost
/// or altered, in whichever order they come.
pub proof fn law_every_change_is_proposed(proposals: Seq<RenameProposal>, probed: Seq<Probed>)
    requires
        proposal::settled(proposals, probed),
    ensures
        proposals.to_multiset() == proposal::proposals_of(probed).to_multiset(),
{
    if proposal::any_dir(probed) {
        proposal::lemma_ordered_same(proposals, proposal::proposals_of(probed));
    }
}

/// The order of the proposals is determined by what is proposed.
pub proof fn law_the_order_is_determined(
    a: Seq<RenameProposal>,
    b: Seq<RenameProposal>,
    probed: Seq<Probed>,
)
    requires
        proposal::settled(a, probed),
        proposal::settled(b, probed),
    ensures
        a == b,
{
    if proposal::any_dir(probed) {
        proposal::lemma_ordered_unique(a, b, proposal::proposals_of(probed));
    }
}

/// Where one of the sources is a directory, the longest destination comes first, in every
/// case in which that puts no directory before one of its entries.
pub proof fn law_longer_destinations_come_first(
    proposals: Seq<RenameProposal>,
    by_length: Seq<RenameProposal>,
    probed: Seq<Probed>,
)
    requires
        proposal::settled(proposals, probed),
        proposal::any_dir(probed),
        proposal::sorted_by(by_length, proposal::proposals_of(probed), Measure::Length),
        proposal::entries_first(by_length),
    ensures
        proposals == by_length,
{
    let given = proposal::proposals_of(probed);
    assert(proposal::ordered_from(by_length, by_length, given));
    proposal::lemma_ordered_unique(proposals, by_length, given);
}

/// Where one of the sources is a directory, what lies in a directory, and so has more parts
/// than the directory, comes before the directory itself, however the two are spelled.
/// [`Renamer::propose`](renamer::Renamer::propose) ensures this of every two proposals.
pub proof fn law_entries_come_before_their_directory(
    proposals: Seq<RenameProposal>,
    probed: Seq<Probed>,
    entry: int,
    directory: int,
)
    requires
        proposal::settled(proposals, probed),
        proposal::any_dir(probed),
        0 <= entry < proposals.len(),
        0 <= directory < proposals.len(),
        paths::lies_in(proposals[entry].src_bytes(), proposals[directory].src_bytes()),
        paths::part_count(proposals[entry].src_bytes()) > paths::part_count(
            proposals[directory].src_bytes(),
        ),
    ensures
        entry < directory,
{
    let given = proposal::proposals_of(probed);
    let by_length = choose|by_length: Seq<RenameProposal>|
        proposal::ordered_from(proposals, by_length, given);
    if proposal::entries_first(by_length) {
        assert(proposal::entries_first(proposals));
    } else if directory < entry {
        assert(Measure::Depth.of(proposals[directory]) >= Measure::Depth.of(proposals[entry]));
    }
}

/// A path that fails is as if it had not been given, unless its failure stops everything.
pub proof fn law_a_failed_path_is_skipped(attempts: Seq<Attempt>, i: int)
    requires
        0 <= i < attempts.len(),
        attempts[i].outcome is Err,
        !attempts[i].outcome->Err_0@.stops_all(),
    ensures
        proposal::changes_of(attempts.remove(i)) == proposal::changes_of(attempts),
        proposal::index_fault(attempts.remove(i)) == proposal::index_fault(attempts),
{
    lemma_changes_without(attempts, i);
    lemma_index_fault_without(attempts, i);
}

proof fn lemma_changes_without(attempts: Seq<Attempt>, i: int)
    requires
        0 <= i < attempts.len(),
        attempts[i].outcome is Err,
    ensures
        proposal::changes_of(attempts.remove(i)) == proposal::changes_of(attempts),
    decreases attempts.len(),
{
    reveal_with_fuel(Seq::filter_map, 2);
    let rest = attempts.remove(i);
    if i == attempts.len() - 1 {
        assert(rest =~= attempts.drop_last());
    } else {
        lemma_changes_without(attempts.drop_last(), i);
        assert(rest.drop_last() =~= attempts.drop_last().remove(i));
        assert(rest.last() == attempts.last());
    }
}

proof fn lemma_index_fault_without(attempts: Seq<Attempt>, i: int)
    requires
        0 <= i < attempts.len(),
        attempts[i].outcome matches Err(e) ==> !e@.stops_all(),
    ensures
        proposal::index_fault(attempts.remove(i)) == proposal::index_fault(attempts),
    decreases attempts.len(),
{
    if i == 0 {
        assert(attempts.remove(0) =~= attempts.skip(1));
    } else {
        assert(attempts.remove(i).skip(1) =~= attempts.skip(1).remove(i - 1));
        lemma_index_fault_without(attempts.skip(1), i - 1);
    }
}

} // verus!
