//! What holds of the proposals that are settled on, in terms of what came of each path.
use crate::error::{RenameError, RenameErrorView};
use crate::paths;
use crate::proposal;
use crate::proposal::{Attempt, Measure, Probed, RenameProposal};
use vstd::prelude::*;

verus! {

/// Whether two paths are the same one.
pub open spec fn alike(a: Seq<u8>, b: Seq<u8>) -> bool {
    paths::equivalent(a, b) || a == b
}

/// Whether an attempt came to a proposal that changes the path.
pub open spec fn moves(attempt: Attempt) -> bool {
    attempt.outcome matches Ok(p) && !alike(paths::path_bytes(p.src), paths::path_bytes(p.dst))
}

/// The bytes of the destination of an attempt that came to a proposal.
pub open spec fn target(attempt: Attempt) -> Seq<u8> {
    paths::path_bytes(attempt.outcome->Ok_0.dst)
}

/// Whether an attempt's destination is that of an earlier one.
pub open spec fn target_repeats(attempts: Seq<Attempt>, j: int) -> bool {
    exists|i: int|
        0 <= i < j && moves(#[trigger] attempts[i]) && alike(
            target(attempts[i]),
            target(attempts[j]),
        )
}

/// Whether proposals are those of the attempts at the given indices, each attempt that
/// changes its path is among them, and the indices are in order.
pub open spec fn taken_from(probed: Seq<Probed>, attempts: Seq<Attempt>, at: Seq<int>) -> bool {
    &&& at.len() == probed.len()
    &&& forall|k: int, l: int| 0 <= k < l < at.len() ==> #[trigger] at[k] < #[trigger] at[l]
    &&& forall|k: int|
        0 <= k < at.len() ==> {
            &&& 0 <= #[trigger] at[k] < attempts.len()
            &&& moves(attempts[at[k]])
            &&& attempts[at[k]].outcome == Ok::<_, RenameError>(probed[k].proposal)
            &&& attempts[at[k]].dst_exists == probed[k].dst_exists
            &&& attempts[at[k]].src_is_dir == probed[k].src_is_dir
        }
    &&& forall|i: int|
        0 <= i < attempts.len() && moves(#[trigger] attempts[i]) ==> at.contains(i)
}

/// What is left of the attempts is the proposals that change their path, each with what the
/// file system says of it, in the order of the attempts and with none left out.
pub proof fn law_every_change_is_kept(attempts: Seq<Attempt>)
    ensures
        exists|at: Seq<int>| taken_from(proposal::changes_of(attempts), attempts, at),
    decreases attempts.len(),
{
    if attempts.len() == 0 {
        assert(taken_from(proposal::changes_of(attempts), attempts, Seq::empty()));
    } else {
        let init = attempts.drop_last();
        let last = attempts.last();
        let n = attempts.len() - 1;
        law_every_change_is_kept(init);
        let before = choose|at: Seq<int>| taken_from(proposal::changes_of(init), init, at);
        let probed = proposal::changes_of(attempts);
        if moves(last) {
            let at = before.push(n);
            assert(probed.len() == at.len());
            assert forall|i: int|
                0 <= i < attempts.len() && moves(#[trigger] attempts[i]) implies at.contains(i) by {
                if i < n {
                    assert(moves(init[i]));
                    let k = choose|k: int| 0 <= k < before.len() && before[k] == i;
                    assert(at[k] == i);
                } else {
                    assert(at[at.len() - 1] == i);
                }
            }
            assert forall|k: int| 0 <= k < at.len() implies {
                &&& 0 <= #[trigger] at[k] < attempts.len()
                &&& moves(attempts[at[k]])
                &&& attempts[at[k]].outcome == Ok::<_, RenameError>(probed[k].proposal)
                &&& attempts[at[k]].dst_exists == probed[k].dst_exists
                &&& attempts[at[k]].src_is_dir == probed[k].src_is_dir
            } by {
                if k < before.len() {
                    assert(at[k] == before[k]);
                    assert(probed[k] == proposal::changes_of(init)[k]);
                    assert(attempts[at[k]] == init[before[k]]);
                }
            }
            assert(taken_from(probed, attempts, at));
        } else {
            assert(probed == proposal::changes_of(init));
            assert forall|i: int|
                0 <= i < attempts.len() && moves(#[trigger] attempts[i]) implies before.contains(
                i,
            ) by {
                assert(moves(init[i]));
            }
            assert forall|k: int| 0 <= k < before.len() implies {
                &&& 0 <= #[trigger] before[k] < attempts.len()
                &&& moves(attempts[before[k]])
                &&& attempts[before[k]].outcome == Ok::<_, RenameError>(probed[k].proposal)
                &&& attempts[before[k]].dst_exists == probed[k].dst_exists
                &&& attempts[before[k]].src_is_dir == probed[k].src_is_dir
            } by {
                assert(attempts[before[k]] == init[before[k]]);
            }
            assert(taken_from(probed, attempts, before));
        }
    }
}

/// Everything stops if and only if the index could not be read for one of the paths, and
/// with what was said of the first such path.
pub proof fn law_the_first_unreadable_index_stops_everything(attempts: Seq<Attempt>)
    ensures
        match proposal::index_fault(attempts) {
            Some(e) => exists|i: int|
                0 <= i < attempts.len() && ((#[trigger] attempts[i]).outcome matches Err(
                    RenameError::Index(said),
                ) && e == RenameErrorView::Index(said@)) && forall|j: int|
                    0 <= j < i ==> !((#[trigger] attempts[j]).outcome matches Err(
                        RenameError::Index(_),
                    )),
            None => forall|j: int|
                0 <= j < attempts.len() ==> !((#[trigger] attempts[j]).outcome matches Err(
                    RenameError::Index(_),
                )),
        },
    decreases attempts.len(),
{
    if attempts.len() > 0 && !(attempts[0].outcome matches Err(RenameError::Index(_))) {
        let rest = attempts.skip(1);
        law_the_first_unreadable_index_stops_everything(rest);
        match proposal::index_fault(attempts) {
            Some(e) => {
                let i = choose|i: int|
                    0 <= i < rest.len() && ((#[trigger] rest[i]).outcome matches Err(
                        RenameError::Index(said),
                    ) && e == RenameErrorView::Index(said@)) && forall|j: int|
                        0 <= j < i ==> !((#[trigger] rest[j]).outcome matches Err(
                            RenameError::Index(_),
                        ));
                assert(attempts[i + 1] == rest[i]);
                assert forall|j: int| 0 <= j < i + 1 implies !((#[trigger]
                attempts[j]).outcome matches Err(RenameError::Index(_))) by {
                    if j > 0 {
                        assert(rest[j - 1] == attempts[j]);
                    }
                }
            },
            None => {
                assert forall|j: int| 0 <= j < attempts.len() implies !((#[trigger]
                attempts[j]).outcome matches Err(RenameError::Index(_))) by {
                    if j > 0 {
                        assert(rest[j - 1] == attempts[j]);
                    }
                }
            },
        }
    } else if attempts.len() > 0 {
        assert(attempts[0].outcome matches Err(RenameError::Index(_)));
    }
}

/// No proposal is refused if and only if no path that changes goes where something is
/// already, be it a file or a directory, and no two of them go to the same place.
pub proof fn law_no_change_goes_where_something_is(attempts: Seq<Attempt>)
    ensures
        proposal::first_fault(proposal::changes_of(attempts)) is None <==> forall|j: int|
            0 <= j < attempts.len() && moves(#[trigger] attempts[j]) ==> !attempts[j].dst_exists
                && !target_repeats(attempts, j),
{
    law_every_change_is_kept(attempts);
    let probed = proposal::changes_of(attempts);
    let at = choose|at: Seq<int>| taken_from(probed, attempts, at);
    crate::laws::law_nothing_is_overwritten(probed);
    assert forall|k: int| 0 <= k < probed.len() implies #[trigger] proposal::repeats(probed, k)
        == target_repeats(attempts, at[k]) by {
        lemma_repeats(probed, attempts, at, k);
    }
    if proposal::first_fault(probed) is None {
        assert forall|j: int| 0 <= j < attempts.len() && moves(#[trigger] attempts[j]) implies
            !attempts[j].dst_exists && !target_repeats(attempts, j) by {
            let k = choose|k: int| 0 <= k < at.len() && at[k] == j;
            assert(!probed[k].dst_exists && !proposal::repeats(probed, k));
        }
    } else if forall|j: int|
        0 <= j < attempts.len() && moves(#[trigger] attempts[j]) ==> !attempts[j].dst_exists
            && !target_repeats(attempts, j) {
        assert forall|k: int| 0 <= k < probed.len() implies !(#[trigger] probed[k]).dst_exists
            && !proposal::repeats(probed, k) by {
            assert(moves(attempts[at[k]]));
        }
    }
}

proof fn lemma_repeats(probed: Seq<Probed>, attempts: Seq<Attempt>, at: Seq<int>, k: int)
    requires
        taken_from(probed, attempts, at),
        0 <= k < probed.len(),
    ensures
        proposal::repeats(probed, k) == target_repeats(attempts, at[k]),
{
    assert(target(attempts[at[k]]) == probed[k].proposal.dst_bytes());
    if proposal::repeats(probed, k) {
        let l = choose|l: int|
            0 <= l < k && #[trigger] paths::same_path(
                probed[l].proposal.dst_bytes(),
                probed[k].proposal.dst_bytes(),
            );
        assert(at[l] < at[k]);
        assert(moves(attempts[at[l]]));
        assert(target(attempts[at[l]]) == probed[l].proposal.dst_bytes());
    }
    if target_repeats(attempts, at[k]) {
        let i = choose|i: int|
            0 <= i < at[k] && moves(#[trigger] attempts[i]) && alike(
                target(attempts[i]),
                target(attempts[at[k]]),
            );
        let l = choose|l: int| 0 <= l < at.len() && at[l] == i;
        assert(l < k) by {
            if k < l {
                assert(at[k] < at[l]);
            }
        }
        assert(target(attempts[at[l]]) == probed[l].proposal.dst_bytes());
        assert(paths::same_path(
            probed[l].proposal.dst_bytes(),
            probed[k].proposal.dst_bytes(),
        ));
    }
}

/// What is refused is the first path that changes and goes where an earlier one goes, or
/// where something is already. The error names that place, and says which of the two it is,
/// the first where it is both.
pub proof fn law_the_first_refused_change_is_named(attempts: Seq<Attempt>)
    ensures
        proposal::first_fault(proposal::changes_of(attempts)) matches Some(e) ==> exists|j: int|
            0 <= j < attempts.len() && moves(#[trigger] attempts[j]) && (if target_repeats(
                attempts,
                j,
            ) {
                e == RenameErrorView::DuplicateDestination(target(attempts[j]))
            } else {
                attempts[j].dst_exists && e == RenameErrorView::DestinationExists(
                    target(attempts[j]),
                )
            }) && forall|i: int|
                0 <= i < j && moves(#[trigger] attempts[i]) ==> !attempts[i].dst_exists
                    && !target_repeats(attempts, i),
{
    law_every_change_is_kept(attempts);
    let probed = proposal::changes_of(attempts);
    let at = choose|at: Seq<int>| taken_from(probed, attempts, at);
    if let Some(e) = proposal::first_fault(probed) {
        let k = lemma_fault_at(probed);
        let j = at[k];
        assert(moves(attempts[j]));
        assert(target(attempts[j]) == probed[k].proposal.dst_bytes());
        lemma_repeats(probed, attempts, at, k);
        assert forall|i: int| 0 <= i < j && moves(#[trigger] attempts[i]) implies
            !attempts[i].dst_exists && !target_repeats(attempts, i) by {
            let l = choose|l: int| 0 <= l < at.len() && at[l] == i;
            assert(l < k) by {
                if k < l {
                    assert(at[k] < at[l]);
                }
            }
            lemma_repeats(probed, attempts, at, l);
            assert(!probed[l].dst_exists && !proposal::repeats(probed, l));
        }
    }
}

/// Where the first fault is.
proof fn lemma_fault_at(probed: Seq<Probed>) -> (k: int)
    requires
        proposal::first_fault(probed) is Some,
    ensures
        0 <= k < probed.len(),
        proposal::first_fault(probed) == Some(
            if proposal::repeats(probed, k) {
                RenameErrorView::DuplicateDestination(probed[k].proposal.dst_bytes())
            } else {
                RenameErrorView::DestinationExists(probed[k].proposal.dst_bytes())
            },
        ),
        proposal::repeats(probed, k) || probed[k].dst_exists,
        forall|l: int|
            0 <= l < k ==> !(#[trigger] probed[l]).dst_exists && !proposal::repeats(probed, l),
    decreases probed.len(),
{
    let init = probed.drop_last();
    assert forall|l: int| 0 <= l < init.len() implies #[trigger] proposal::repeats(init, l)
        == proposal::repeats(probed, l) by {
        lemma_repeats_before(probed, l);
    }
    if proposal::first_fault(init) is Some {
        let k = lemma_fault_at(init);
        assert(init[k] == probed[k]);
        assert(proposal::repeats(init, k) == proposal::repeats(probed, k));
        assert forall|l: int| 0 <= l < k implies !(#[trigger] probed[l]).dst_exists
            && !proposal::repeats(probed, l) by {
            assert(init[l] == probed[l]);
            assert(!proposal::repeats(init, l));
        }
        k
    } else {
        crate::laws::law_nothing_is_overwritten(init);
        let k = probed.len() - 1;
        assert forall|l: int| 0 <= l < k implies !(#[trigger] probed[l]).dst_exists
            && !proposal::repeats(probed, l) by {
            assert(init[l] == probed[l]);
            assert(!init[l].dst_exists && !proposal::repeats(init, l));
        }
        k
    }
}

proof fn lemma_repeats_before(probed: Seq<Probed>, l: int)
    requires
        0 <= l < probed.len() - 1,
    ensures
        proposal::repeats(probed.drop_last(), l) == proposal::repeats(probed, l),
{
    let init = probed.drop_last();
    if proposal::repeats(init, l) {
        let j = choose|j: int|
            0 <= j < l && #[trigger] paths::same_path(
                init[j].proposal.dst_bytes(),
                init[l].proposal.dst_bytes(),
            );
        assert(paths::same_path(probed[j].proposal.dst_bytes(), probed[l].proposal.dst_bytes()));
    }
    if proposal::repeats(probed, l) {
        let j = choose|j: int|
            0 <= j < l && #[trigger] paths::same_path(
                probed[j].proposal.dst_bytes(),
                probed[l].proposal.dst_bytes(),
            );
        assert(paths::same_path(init[j].proposal.dst_bytes(), init[l].proposal.dst_bytes()));
    }
}

/// Whether proposals are those of the attempts at the given indices, in any order: each
/// attempt that changes its path is among them once, and nothing else is.
pub open spec fn placed(
    proposals: Seq<RenameProposal>,
    attempts: Seq<Attempt>,
    at: Seq<int>,
) -> bool {
    &&& at.len() == proposals.len()
    &&& at.no_duplicates()
    &&& forall|k: int|
        0 <= k < at.len() ==> 0 <= #[trigger] at[k] < attempts.len() && moves(attempts[at[k]])
            && attempts[at[k]].outcome == Ok::<_, RenameError>(proposals[k])
    &&& forall|i: int|
        0 <= i < attempts.len() && moves(#[trigger] attempts[i]) ==> at.contains(i)
}

/// Whether one proposal goes before another one by length: its destination is longer, or as
/// long and its path was given earlier.
pub open spec fn longer(proposals: Seq<RenameProposal>, at: Seq<int>, k: int, l: int) -> bool {
    let a = paths::path_bytes(proposals[k].dst).len();
    let b = paths::path_bytes(proposals[l].dst).len();
    a > b || a == b && at[k] < at[l]
}

/// Whether one proposal goes before another one by depth: its source has more parts, or as
/// many and it goes before the other one by length.
pub open spec fn deeper(proposals: Seq<RenameProposal>, at: Seq<int>, k: int, l: int) -> bool {
    let a = paths::part_count(paths::path_bytes(proposals[k].src));
    let b = paths::part_count(paths::path_bytes(proposals[l].src));
    a > b || a == b && longer(proposals, at, k, l)
}

/// Whether the source of one proposal lies in that of another one.
pub open spec fn inside(proposals: Seq<RenameProposal>, k: int, l: int) -> bool {
    let a = paths::path_bytes(proposals[k].src);
    let b = paths::path_bytes(proposals[l].src);
    paths::within(a, b) && !alike(a, b)
}

/// Whether going by length puts each source before those that it lies in.
pub open spec fn length_will_do(proposals: Seq<RenameProposal>, at: Seq<int>) -> bool {
    forall|k: int, l: int|
        0 <= k < proposals.len() && 0 <= l < proposals.len() && #[trigger] inside(proposals, k, l)
            ==> longer(proposals, at, k, l)
}

/// Whether one proposal goes before another one: by length or, where that will not do, by
/// depth.
pub open spec fn goes_before(
    proposals: Seq<RenameProposal>,
    at: Seq<int>,
    k: int,
    l: int,
) -> bool {
    if length_will_do(proposals, at) {
        longer(proposals, at, k, l)
    } else {
        deeper(proposals, at, k, l)
    }
}

/// Whether a path that changes is a directory's.
pub open spec fn has_directory(attempts: Seq<Attempt>) -> bool {
    exists|i: int|
        0 <= i < attempts.len() && moves(#[trigger] attempts[i]) && attempts[i].src_is_dir
}

/// Whether proposals are in the order in which they can be carried out.
pub open spec fn in_order(
    proposals: Seq<RenameProposal>,
    attempts: Seq<Attempt>,
    at: Seq<int>,
) -> bool {
    if has_directory(attempts) {
        forall|k: int, l: int|
            0 <= k < l < proposals.len() ==> #[trigger] goes_before(proposals, at, k, l)
    } else {
        forall|k: int, l: int| 0 <= k < l < proposals.len() ==> #[trigger] at[k] < #[trigger] at[l]
    }
}

/// The proposals that are settled on are those of the paths that change, each once. They
/// keep the order of the paths, unless one of these is a directory's: then they go by the
/// length of the destination, the longest first, or by the depth of the source, the deepest
/// first, where going by length would put a directory before what lies in it.
pub proof fn law_proposals_come_in_order(proposals: Seq<RenameProposal>, attempts: Seq<Attempt>)
    requires
        proposal::first_fault(proposal::changes_of(attempts)) is None,
        proposal::settled(proposals, proposal::changes_of(attempts)),
    ensures
        exists|at: Seq<int>| #[trigger]
            placed(proposals, attempts, at) && in_order(proposals, attempts, at),
{
    law_every_change_is_kept(attempts);
    let probed = proposal::changes_of(attempts);
    let given = proposal::proposals_of(probed);
    let from = choose|at: Seq<int>| taken_from(probed, attempts, at);
    lemma_given_once(probed);
    assert(proposals.to_multiset() == given.to_multiset()) by {
        crate::laws::law_every_change_is_proposed(proposals, probed);
    }
    let pos = Seq::new(proposals.len(), |k: int| given.index_of(proposals[k]));
    let at = Seq::new(proposals.len(), |k: int| from[pos[k]]);
    lemma_positions(proposals, given, pos);
    assert(placed(proposals, attempts, at)) by {
        assert forall|k: int| 0 <= k < at.len() implies 0 <= #[trigger] at[k] < attempts.len()
            && moves(attempts[at[k]]) && attempts[at[k]].outcome == Ok::<_, RenameError>(
            proposals[k],
        ) by {
            assert(given[pos[k]] == proposals[k]);
            assert(0 <= from[pos[k]] < attempts.len());
        }
        assert forall|k: int, l: int| 0 <= k < at.len() && 0 <= l < at.len() && k != l implies at[k]
            != at[l] by {
            assert(pos[k] != pos[l]);
            if pos[k] < pos[l] {
                assert(from[pos[k]] < from[pos[l]]);
            } else {
                assert(from[pos[l]] < from[pos[k]]);
            }
        }
        assert forall|i: int|
            0 <= i < attempts.len() && moves(#[trigger] attempts[i]) implies at.contains(i) by {
            let t = choose|t: int| 0 <= t < from.len() && from[t] == i;
            assert(pos.contains(t));
            let k = choose|k: int| 0 <= k < pos.len() && pos[k] == t;
            assert(at[k] == i);
        }
    }
    assert forall|k: int, l: int| 0 <= k < proposals.len() && 0 <= l < proposals.len() implies (
    #[trigger] at[k] < #[trigger] at[l]) == (pos[k] < pos[l]) by {
        assert(0 <= pos[k] < from.len() && 0 <= pos[l] < from.len());
        if pos[k] < pos[l] {
            assert(from[pos[k]] < from[pos[l]]);
        } else if pos[l] < pos[k] {
            assert(from[pos[l]] < from[pos[k]]);
        }
    }
    assert(has_directory(attempts) == proposal::any_dir(probed)) by {
        if has_directory(attempts) {
            let i = choose|i: int|
                0 <= i < attempts.len() && moves(#[trigger] attempts[i])
                    && attempts[i].src_is_dir;
            let t = choose|t: int| 0 <= t < from.len() && from[t] == i;
            assert(probed[t].src_is_dir);
        }
        if proposal::any_dir(probed) {
            let t = choose|t: int| 0 <= t < probed.len() && (#[trigger] probed[t]).src_is_dir;
            assert(moves(attempts[from[t]]) && attempts[from[t]].src_is_dir);
        }
    }
    if proposal::any_dir(probed) {
        let by_length = choose|by_length: Seq<RenameProposal>|
            proposal::ordered_from(proposals, by_length, given);
        lemma_in_order(proposals, by_length, given, pos);
        assert forall|k: int, l: int| 0 <= k < proposals.len() && 0 <= l < proposals.len() implies
            longer(proposals, at, k, l) == longer(proposals, pos, k, l) by {
            assert((at[k] < at[l]) == (pos[k] < pos[l]));
        }
        assert(length_will_do(proposals, at) == length_will_do(proposals, pos));
        assert forall|k: int, l: int| 0 <= k < l < proposals.len() implies #[trigger] goes_before(
            proposals,
            at,
            k,
            l,
        ) by {
            assert(goes_before(proposals, pos, k, l));
            assert(longer(proposals, at, k, l) == longer(proposals, pos, k, l));
        }
    } else {
        assert forall|k: int, l: int| 0 <= k < l < proposals.len() implies #[trigger] at[k]
            < #[trigger] at[l] by {
            assert(given[k] == proposals[k] && given[l] == proposals[l]);
            assert(pos[k] == k && pos[l] == l);
        }
    }
}

/// Where no destination repeats an earlier one, no proposal is given twice.
proof fn lemma_given_once(probed: Seq<Probed>)
    requires
        proposal::first_fault(probed) is None,
    ensures
        proposal::proposals_of(probed).no_duplicates(),
{
    crate::laws::law_nothing_is_overwritten(probed);
    let given = proposal::proposals_of(probed);
    assert forall|i: int, j: int| 0 <= i < j < given.len() implies given[i] != given[j] by {
        assert(!probed[j].dst_exists && !proposal::repeats(probed, j));
        assert(!paths::same_path(
            probed[i].proposal.dst_bytes(),
            probed[j].proposal.dst_bytes(),
        ));
    }
}

/// Where each of some proposals stands among others of the same, none of which is there
/// twice.
proof fn lemma_positions(
    proposals: Seq<RenameProposal>,
    given: Seq<RenameProposal>,
    pos: Seq<int>,
)
    requires
        given.no_duplicates(),
        proposals.to_multiset() == given.to_multiset(),
        pos == Seq::new(proposals.len(), |k: int| given.index_of(proposals[k])),
    ensures
        proposals.no_duplicates(),
        forall|k: int|
            0 <= k < pos.len() ==> 0 <= #[trigger] pos[k] < given.len() && given[pos[k]]
                == proposals[k],
        pos.no_duplicates(),
        forall|t: int| 0 <= t < given.len() ==> #[trigger] pos.contains(t),
{
    proposals.to_multiset_ensures();
    given.to_multiset_ensures();
    assert forall|k: int| 0 <= k < pos.len() implies 0 <= #[trigger] pos[k] < given.len()
        && given[pos[k]] == proposals[k] by {
        assert(proposals.contains(proposals[k]));
        assert(proposals.to_multiset().count(proposals[k]) > 0);
        assert(given.contains(proposals[k]));
    }
    given.lemma_multiset_has_no_duplicates();
    assert(proposals.no_duplicates()) by {
        proposals.lemma_multiset_has_no_duplicates_conv();
    }
    assert forall|t: int| 0 <= t < given.len() implies #[trigger] pos.contains(t) by {
        assert(given.contains(given[t]));
        assert(given.to_multiset().count(given[t]) > 0);
        assert(proposals.contains(given[t]));
        let k = choose|k: int| 0 <= k < proposals.len() && proposals[k] == given[t];
        assert(given[pos[k]] == given[t]);
        assert(pos[k] == t);
    }
}

/// Where what a condition holds of stands in a sequence.
proof fn lemma_filtered_from(
    s: Seq<RenameProposal>,
    f: spec_fn(RenameProposal) -> bool,
) -> (at: Seq<int>)
    ensures
        at.len() == s.filter(f).len(),
        forall|a: int, b: int| 0 <= a < b < at.len() ==> #[trigger] at[a] < #[trigger] at[b],
        forall|a: int|
            0 <= a < at.len() ==> 0 <= #[trigger] at[a] < s.len() && s.filter(f)[a] == s[at[a]],
        forall|i: int| 0 <= i < s.len() && f(#[trigger] s[i]) ==> at.contains(i),
    decreases s.len(),
{
    reveal(Seq::filter);
    if s.len() == 0 {
        Seq::empty()
    } else {
        let init = s.drop_last();
        let before = lemma_filtered_from(init, f);
        let n = s.len() - 1;
        let at = if f(s.last()) {
            before.push(n)
        } else {
            before
        };
        assert forall|i: int| 0 <= i < s.len() && f(#[trigger] s[i]) implies at.contains(i) by {
            if i < n {
                assert(init[i] == s[i]);
                let k = choose|k: int| 0 <= k < before.len() && before[k] == i;
                assert(at[k] == i);
            } else {
                assert(at[at.len() - 1] == i);
            }
        }
        at
    }
}

/// Sorting keeps the order of what measures the same.
proof fn lemma_sorted_keeps_order(
    sorted: Seq<RenameProposal>,
    given: Seq<RenameProposal>,
    m: Measure,
    k: int,
    l: int,
    i: int,
    j: int,
)
    requires
        proposal::sorted_by(sorted, given, m),
        given.no_duplicates(),
        0 <= k < l < sorted.len(),
        0 <= i < given.len(),
        0 <= j < given.len(),
        given[i] == sorted[k],
        given[j] == sorted[l],
    ensures
        m.of(sorted[k]) > m.of(sorted[l]) || m.of(sorted[k]) == m.of(sorted[l]) && i < j,
{
    assert(m.of(sorted[k]) >= m.of(sorted[l]));
    if m.of(sorted[k]) == m.of(sorted[l]) {
        let f = proposal::measuring(m, m.of(sorted[k]));
        let a = lemma_filtered_from(sorted, f);
        let b = lemma_filtered_from(given, f);
        assert(sorted.filter(f) == given.filter(f));
        assert(f(sorted[k]) && f(sorted[l]));
        let x = choose|x: int| 0 <= x < a.len() && a[x] == k;
        let y = choose|y: int| 0 <= y < a.len() && a[y] == l;
        assert(x < y) by {
            if y < x {
                assert(a[y] < a[x]);
            }
        }
        assert(given[b[x]] == sorted[k]);
        assert(given[b[y]] == sorted[l]);
        assert(b[x] == i && b[y] == j);
    }
}

/// Proposals in the order in which they can be carried out go by length, or else by depth.
proof fn lemma_in_order(
    proposals: Seq<RenameProposal>,
    by_length: Seq<RenameProposal>,
    given: Seq<RenameProposal>,
    pos: Seq<int>,
)
    requires
        proposal::ordered_from(proposals, by_length, given),
        given.no_duplicates(),
        proposals.to_multiset() == given.to_multiset(),
        pos == Seq::new(proposals.len(), |k: int| given.index_of(proposals[k])),
    ensures
        forall|k: int, l: int|
            0 <= k < l < proposals.len() ==> #[trigger] goes_before(proposals, pos, k, l),
{
    proposal::lemma_sorted_same(by_length, given, Measure::Length);
    lemma_positions(proposals, given, pos);
    let mid = Seq::new(proposals.len(), |k: int| by_length.index_of(proposals[k]));
    lemma_positions(
        by_length,
        given,
        Seq::new(by_length.len(), |k: int| given.index_of(by_length[k])),
    );
    lemma_positions(proposals, by_length, mid);
    // Going by length is the order of `by_length`.
    assert forall|k: int, l: int|
        #![trigger mid[k], mid[l]]
        0 <= k < proposals.len() && 0 <= l < proposals.len() && mid[k] < mid[l] implies longer(
        proposals,
        pos,
        k,
        l,
    ) by {
        lemma_sorted_keeps_order(
            by_length,
            given,
            Measure::Length,
            mid[k],
            mid[l],
            pos[k],
            pos[l],
        );
    }
    assert(proposal::entries_first(by_length) == length_will_do(proposals, pos)) by {
        if proposal::entries_first(by_length) {
            assert forall|k: int, l: int|
                0 <= k < proposals.len() && 0 <= l < proposals.len() && #[trigger] inside(
                    proposals,
                    k,
                    l,
                ) implies longer(proposals, pos, k, l) by {
                assert(by_length[mid[k]] == proposals[k] && by_length[mid[l]] == proposals[l]);
                assert(paths::lies_in(
                    by_length[mid[k]].src_bytes(),
                    by_length[mid[l]].src_bytes(),
                ));
                assert(mid[k] < mid[l]);
            }
        }
        if length_will_do(proposals, pos) {
            assert forall|a: int, b: int|
                0 <= a < by_length.len() && 0 <= b < by_length.len() && #[trigger] paths::lies_in(
                    by_length[a].src_bytes(),
                    by_length[b].src_bytes(),
                ) implies a < b by {
                assert(mid.contains(a) && mid.contains(b));
                let k = choose|k: int| 0 <= k < mid.len() && mid[k] == a;
                let l = choose|l: int| 0 <= l < mid.len() && mid[l] == b;
                assert(inside(proposals, k, l));
                assert(longer(proposals, pos, k, l));
                if b < a {
                    assert(mid[l] < mid[k]);
                    assert(longer(proposals, pos, l, k));
                }
            }
        }
    }
    assert forall|k: int, l: int| 0 <= k < l < proposals.len() implies #[trigger] goes_before(
        proposals,
        pos,
        k,
        l,
    ) by {
        if proposal::entries_first(by_length) {
            assert(by_length[mid[k]] == by_length[k] && by_length[mid[l]] == by_length[l]);
            assert(mid[k] == k && mid[l] == l);
            assert(longer(proposals, pos, k, l));
        } else {
            lemma_sorted_keeps_order(
                proposals,
                by_length,
                Measure::Depth,
                k,
                l,
                mid[k],
                mid[l],
            );
            if mid[k] < mid[l] {
                assert(longer(proposals, pos, k, l));
            }
        }
    }
}

/// Sorting adds and loses nothing, puts the longest destination or the deepest source
/// first, and keeps the order of what measures the same.
pub proof fn law_sorting_goes_by_the_measure(
    sorted: Seq<RenameProposal>,
    given: Seq<RenameProposal>,
    m: Measure,
)
    requires
        proposal::sorted_by(sorted, given, m),
    ensures
        sorted.to_multiset() == given.to_multiset(),
        forall|k: int, l: int|
            #![trigger sorted[k], sorted[l]]
            0 <= k < l < sorted.len() ==> match m {
                Measure::Length => paths::path_bytes(sorted[k].dst).len() >= paths::path_bytes(
                    sorted[l].dst,
                ).len(),
                Measure::Depth => paths::part_count(paths::path_bytes(sorted[k].src))
                    >= paths::part_count(paths::path_bytes(sorted[l].src)),
            },
        forall|k: int, l: int, i: int, j: int|
            #![trigger sorted[k], sorted[l], given[i], given[j]]
            given.no_duplicates() && 0 <= k < l < sorted.len() && 0 <= i < given.len() && 0 <= j
                < given.len() && given[i] == sorted[k] && given[j] == sorted[l] && (match m {
                Measure::Length => paths::path_bytes(sorted[k].dst).len() == paths::path_bytes(
                    sorted[l].dst,
                ).len(),
                Measure::Depth => paths::part_count(paths::path_bytes(sorted[k].src))
                    == paths::part_count(paths::path_bytes(sorted[l].src)),
            }) ==> i < j,
{
    proposal::lemma_sorted_same(sorted, given, m);
    assert forall|k: int, l: int|
        #![trigger sorted[k], sorted[l]]
        0 <= k < l < sorted.len() implies m.of(sorted[k]) >= m.of(sorted[l]) by {}
    assert forall|k: int, l: int, i: int, j: int|
        #![trigger sorted[k], sorted[l], given[i], given[j]]
        given.no_duplicates() && 0 <= k < l < sorted.len() && 0 <= i < given.len() && 0 <= j
            < given.len() && given[i] == sorted[k] && given[j] == sorted[l] && m.of(sorted[k])
            == m.of(sorted[l]) implies i < j by {
        lemma_sorted_keeps_order(sorted, given, m, k, l, i, j);
    }
}

/// Proposals that are put in order are the given ones, and go by the length of the
/// destination, the longest first, or by the depth of the source, the deepest first, where
/// going by length would put a directory before what lies in it.
pub proof fn law_an_order_goes_by_length_or_depth(
    proposals: Seq<RenameProposal>,
    given: Seq<RenameProposal>,
)
    requires
        proposal::ordered(proposals, given),
        given.no_duplicates(),
    ensures
        exists|at: Seq<int>|
            #![trigger at.no_duplicates()]
            at.len() == given.len() && proposals.len() == given.len() && at.no_duplicates()
                && (forall|k: int|
                0 <= k < at.len() ==> 0 <= #[trigger] at[k] < given.len() && given[at[k]]
                    == proposals[k]) && forall|k: int, l: int|
                0 <= k < l < proposals.len() ==> #[trigger] goes_before(proposals, at, k, l),
{
    let by_length = choose|by_length: Seq<RenameProposal>|
        proposal::ordered_from(proposals, by_length, given);
    proposal::lemma_ordered_same(proposals, given);
    let pos = Seq::new(proposals.len(), |k: int| given.index_of(proposals[k]));
    lemma_positions(proposals, given, pos);
    lemma_in_order(proposals, by_length, given, pos);
    proposals.to_multiset_ensures();
    given.to_multiset_ensures();
    assert(pos.no_duplicates());
}

/// Proposals that can be carried out one after the other: each changes its path, no two of
/// them go to the same place, and none takes away what a later one is to rename.
pub proof fn law_proposals_do_not_get_in_each_others_way(proposals: Seq<RenameProposal>)
    requires
        proposal::all_move(proposals),
        proposal::distinct_destinations(proposals),
        proposal::entries_first(proposals),
    ensures
        forall|k: int|
            0 <= k < proposals.len() ==> !alike(
                paths::path_bytes((#[trigger] proposals[k]).src),
                paths::path_bytes(proposals[k].dst),
            ),
        forall|k: int, l: int|
            #![trigger proposals[k], proposals[l]]
            0 <= k < proposals.len() && 0 <= l < proposals.len() && k != l ==> !alike(
                paths::path_bytes(proposals[k].dst),
                paths::path_bytes(proposals[l].dst),
            ),
        forall|k: int, l: int|
            0 <= k < l < proposals.len() ==> !#[trigger] inside(proposals, l, k),
{
    assert forall|k: int| 0 <= k < proposals.len() implies !alike(
        paths::path_bytes((#[trigger] proposals[k]).src),
        paths::path_bytes(proposals[k].dst),
    ) by {
        assert(proposals[k].changes());
    }
    assert forall|k: int, l: int|
        #![trigger proposals[k], proposals[l]]
        0 <= k < proposals.len() && 0 <= l < proposals.len() && k != l implies !alike(
        paths::path_bytes(proposals[k].dst),
        paths::path_bytes(proposals[l].dst),
    ) by {
        assert(!paths::same_path(proposals[k].dst_bytes(), proposals[l].dst_bytes()));
    }
    assert forall|k: int, l: int| 0 <= k < l < proposals.len() implies !#[trigger] inside(
        proposals,
        l,
        k,
    ) by {
        if inside(proposals, l, k) {
            assert(paths::lies_in(proposals[l].src_bytes(), proposals[k].src_bytes()));
        }
    }
}

/// Paths lie in one another by their parts, and are the same by their parts or their bytes.
pub proof fn law_paths_are_told_apart(a: Seq<u8>, b: Seq<u8>)
    ensures
        paths::same_path(a, b) <==> alike(a, b),
        paths::lies_in(a, b) <==> paths::within(a, b) && !alike(a, b),
{
}

} // verus!
