//! Proposals to rename files: which of them stand, and in which order.
use crate::error;
use crate::error::{RenameError, RenameErrorView};
use crate::laws::settling;
use crate::paths;
use crate::renamer::Renamer;
use std::path::PathBuf;
use vstd::prelude::*;
use vstd::seq_lib::*;

verus! {

/// A proposal to rename the file at `src` to `dst`.
#[derive(Debug)]
pub struct RenameProposal {
    pub src: PathBuf,
    pub dst: PathBuf,
}

impl Clone for RenameProposal {
    fn clone(&self) -> (r: Self)
        ensures
            r == *self,
    {
        RenameProposal { src: self.src.clone(), dst: self.dst.clone() }
    }
}

/// What came of one path: the proposal, or why there is none, and what the file system
/// says of it.
#[derive(Debug)]
pub struct Attempt {
    /// The proposal for the path, or why there is none.
    pub outcome: Result<RenameProposal, RenameError>,
    /// Whether there is something at the proposal's `dst`.
    pub dst_exists: bool,
    /// Whether there is a directory at the proposal's `src`.
    pub src_is_dir: bool,
}

/// A proposal, and what the file system says of it.
#[derive(Debug)]
pub struct Probed {
    pub proposal: RenameProposal,
    pub dst_exists: bool,
    pub src_is_dir: bool,
}

impl RenameProposal {
    /// The bytes of the path to rename.
    pub open spec fn src_bytes(self) -> Seq<u8> {
        paths::path_bytes(self.src)
    }

    /// The bytes of the path to rename to.
    pub open spec fn dst_bytes(self) -> Seq<u8> {
        paths::path_bytes(self.dst)
    }

    /// Whether the two paths differ.
    pub open spec fn changes(self) -> bool {
        !paths::same_path(self.src_bytes(), self.dst_bytes())
    }
}

/// What is left of an attempt: its proposal, unless that changes nothing.
pub open spec fn change_of(attempt: Attempt) -> Option<Probed> {
    match attempt.outcome {
        Ok(proposal) => if proposal.changes() {
            Some(
                Probed {
                    proposal,
                    dst_exists: attempt.dst_exists,
                    src_is_dir: attempt.src_is_dir,
                },
            )
        } else {
            None
        },
        Err(_) => None,
    }
}

/// Why the first of the paths failed whose failure stops everything.
pub open spec fn index_fault(attempts: Seq<Attempt>) -> Option<RenameErrorView>
    decreases attempts.len(),
{
    if attempts.len() == 0 {
        None
    } else {
        match attempts[0].outcome {
            Err(e) => if e@.stops_all() {
                Some(e@)
            } else {
                index_fault(attempts.skip(1))
            },
            Ok(_) => index_fault(attempts.skip(1)),
        }
    }
}

/// The proposals that change something, in the order of the attempts.
pub open spec fn changes_of(attempts: Seq<Attempt>) -> Seq<Probed> {
    attempts.filter_map(|a: Attempt| change_of(a))
}

/// The proposals alone.
pub open spec fn proposals_of(probed: Seq<Probed>) -> Seq<RenameProposal> {
    probed.map_values(|p: Probed| p.proposal)
}

/// Whether the destination at an index is an earlier one too.
pub open spec fn repeats(probed: Seq<Probed>, i: int) -> bool {
    exists|j: int|
        0 <= j < i && #[trigger] paths::same_path(
            probed[j].proposal.dst_bytes(),
            probed[i].proposal.dst_bytes(),
        )
}

/// What is wrong with the first proposal that cannot stand: its destination is that of
/// an earlier one, or else it is taken.
pub open spec fn first_fault(probed: Seq<Probed>) -> Option<RenameErrorView>
    decreases probed.len(),
{
    if probed.len() == 0 {
        None
    } else {
        match first_fault(probed.drop_last()) {
            Some(e) => Some(e),
            None => if repeats(probed, probed.len() - 1) {
                Some(RenameErrorView::DuplicateDestination(probed.last().proposal.dst_bytes()))
            } else if probed.last().dst_exists {
                Some(RenameErrorView::DestinationExists(probed.last().proposal.dst_bytes()))
            } else {
                None
            },
        }
    }
}

/// Whether one of the sources is a directory.
pub open spec fn any_dir(probed: Seq<Probed>) -> bool {
    exists|i: int| 0 <= i < probed.len() && (#[trigger] probed[i]).src_is_dir
}

/// What proposals are sorted by.
#[derive(Clone, Copy, Debug)]
pub enum Measure {
    /// The length of the destination.
    Length,
    /// The number of parts of the source.
    Depth,
}

impl Measure {
    /// The measure of a proposal.
    pub open spec fn of(self, p: RenameProposal) -> nat {
        match self {
            Measure::Length => p.dst_bytes().len(),
            Measure::Depth => paths::part_count(p.src_bytes()),
        }
    }

    /// The measure of a proposal.
    pub fn measure(self, p: &RenameProposal) -> (r: usize)
        ensures
            r == self.of(*p),
    {
        match self {
            Measure::Length => paths::len(&p.dst),
            Measure::Depth => paths::parts(&p.src),
        }
    }
}

/// Holds of the proposals of a given measure.
pub open spec fn measuring(m: Measure, n: nat) -> spec_fn(RenameProposal) -> bool {
    |p: RenameProposal| m.of(p) == n
}

/// Whether no proposal measures more than an earlier one.
pub open spec fn descending(proposals: Seq<RenameProposal>, m: Measure) -> bool {
    forall|i: int, j: int|
        0 <= i < j < proposals.len() ==> m.of(#[trigger] proposals[i]) >= m.of(
            #[trigger] proposals[j],
        )
}

/// Whether proposals are others in descending order of a measure, with those of the same
/// measure in the order that they had.
pub open spec fn sorted_by(
    sorted: Seq<RenameProposal>,
    given: Seq<RenameProposal>,
    m: Measure,
) -> bool {
    &&& descending(sorted, m)
    &&& forall|n: nat| #[trigger] sorted.filter(measuring(m, n)) == given.filter(measuring(m, n))
}

/// Whether each source comes before those that it lies in.
pub open spec fn entries_first(proposals: Seq<RenameProposal>) -> bool {
    forall|i: int, j: int|
        0 <= i < proposals.len() && 0 <= j < proposals.len() && #[trigger] paths::lies_in(
            proposals[i].src_bytes(),
            proposals[j].src_bytes(),
        ) ==> i < j
}

/// Whether proposals are others in the order in which they can be carried out, which are
/// also given sorted by the length of the destination: in that order or, where it would put
/// a directory before one of its entries, the source of the most parts first, with those of
/// as many parts in that order.
pub open spec fn ordered_from(
    proposals: Seq<RenameProposal>,
    by_length: Seq<RenameProposal>,
    given: Seq<RenameProposal>,
) -> bool {
    &&& sorted_by(by_length, given, Measure::Length)
    &&& if entries_first(by_length) {
        proposals == by_length
    } else {
        sorted_by(proposals, by_length, Measure::Depth)
    }
}

/// Whether proposals are others in the order in which they can be carried out.
pub open spec fn ordered(proposals: Seq<RenameProposal>, given: Seq<RenameProposal>) -> bool {
    exists|by_length: Seq<RenameProposal>| ordered_from(proposals, by_length, given)
}

/// Whether no two proposals have the same destination.
pub open spec fn distinct_destinations(proposals: Seq<RenameProposal>) -> bool {
    forall|i: int, j: int|
        0 <= i < proposals.len() && 0 <= j < proposals.len() && i != j
            ==> !#[trigger] paths::same_path(proposals[i].dst_bytes(), proposals[j].dst_bytes())
}

/// Whether no proposal keeps its path.
pub open spec fn all_move(proposals: Seq<RenameProposal>) -> bool {
    forall|i: int| 0 <= i < proposals.len() ==> (#[trigger] proposals[i]).changes()
}

/// Drops what changes nothing.
pub fn changes(attempts: Vec<Attempt>) -> (r: Vec<Probed>)
    ensures
        r@ == changes_of(attempts@),
        all_move(proposals_of(r@)),
{
    let mut out: Vec<Probed> = Vec::new();
    let ghost all = attempts@;
    let ghost f = |a: Attempt| change_of(a);
    for attempt in it: attempts
        invariant
            it.seq() == all,
            f == (|a: Attempt| change_of(a)),
            out@ == all.take(it.index() as int).filter_map(f),
            all_move(proposals_of(out@)),
    {
        proof {
            all.lemma_filter_map_take_succ(f, it.index() as int);
        }
        if let Ok(proposal) = attempt.outcome {
            if !paths::same(&proposal.src, &proposal.dst) {
                let ghost before = proposals_of(out@);
                out.push(
                    Probed {
                        proposal,
                        dst_exists: attempt.dst_exists,
                        src_is_dir: attempt.src_is_dir,
                    },
                );
                assert(proposals_of(out@) =~= before.push(proposal));
            }
        }
    }
    assert(all.take(all.len() as int) =~= all);
    out
}

/// Finds what is wrong with the first proposal that cannot stand.
pub fn find_fault(probed: &Vec<Probed>) -> (r: Option<RenameError>)
    ensures
        r is Some <==> first_fault(probed@) is Some,
        r matches Some(e) ==> first_fault(probed@) == Some(e@),
        r is None ==> distinct_destinations(proposals_of(probed@)),
{
    let ghost all = proposals_of(probed@);
    assert(probed@.take(0) =~= Seq::<Probed>::empty());
    for i in 0..probed.len()
        invariant
            all == proposals_of(probed@),
            first_fault(probed@.take(i as int)) is None,
            distinct_destinations(all.take(i as int)),
    {
        let ghost seen = probed@.take(i + 1);
        assert(seen.drop_last() =~= probed@.take(i as int));
        let dst = &probed[i].proposal.dst;
        for j in 0..i
            invariant
                0 <= i < probed.len(),
                *dst == probed@[i as int].proposal.dst,
                all == proposals_of(probed@),
                seen == probed@.take(i + 1),
                seen.drop_last() == probed@.take(i as int),
                first_fault(probed@.take(i as int)) is None,
                forall|k: int|
                    0 <= k < j ==> !#[trigger] paths::same_path(
                        all[k].dst_bytes(),
                        all[i as int].dst_bytes(),
                    ),
                forall|k: int|
                    0 <= k < j ==> !#[trigger] paths::same_path(
                        all[i as int].dst_bytes(),
                        all[k].dst_bytes(),
                    ),
        {
            if paths::same(&probed[j].proposal.dst, dst) {
                assert(paths::same_path(
                    seen[j as int].proposal.dst_bytes(),
                    seen[i as int].proposal.dst_bytes(),
                ));
                proof {
                    lemma_fault_stays(probed@, i + 1);
                }
                return Some(RenameError::DuplicateDestination(dst.clone()));
            }
        }
        assert(!repeats(seen, i as int)) by {
            assert forall|k: int| 0 <= k < i implies !#[trigger] paths::same_path(
                seen[k].proposal.dst_bytes(),
                seen[i as int].proposal.dst_bytes(),
            ) by {
                assert(!paths::same_path(all[k].dst_bytes(), all[i as int].dst_bytes()));
            }
        }
        if probed[i].dst_exists {
            proof {
                lemma_fault_stays(probed@, i + 1);
            }
            return Some(RenameError::DestinationExists(dst.clone()));
        }
        proof {
            let longer = all.take(i + 1);
            let shorter = all.take(i as int);
            assert forall|a: int, b: int|
                0 <= a < longer.len() && 0 <= b < longer.len() && a != b implies !#[trigger]
            paths::same_path(longer[a].dst_bytes(), longer[b].dst_bytes()) by {
                if a < i && b < i {
                    assert(!paths::same_path(shorter[a].dst_bytes(), shorter[b].dst_bytes()));
                } else if a < i {
                    assert(!paths::same_path(all[a].dst_bytes(), all[i as int].dst_bytes()));
                } else {
                    assert(!paths::same_path(all[i as int].dst_bytes(), all[b].dst_bytes()));
                }
            }
        }
    }
    assert(probed@.take(probed.len() as int) =~= probed@);
    assert(all.take(probed.len() as int) =~= all);
    None
}

/// A fault among the first proposals is the first fault of all.
proof fn lemma_fault_stays(probed: Seq<Probed>, n: int)
    requires
        0 <= n <= probed.len(),
        first_fault(probed.take(n)) is Some,
    ensures
        first_fault(probed) == first_fault(probed.take(n)),
    decreases probed.len() - n,
{
    if n < probed.len() {
        assert(probed.take(n + 1).drop_last() =~= probed.take(n));
        lemma_fault_stays(probed, n + 1);
    } else {
        assert(probed.take(n) =~= probed);
    }
}

/// Putting a proposal before those that measure no more keeps the order.
proof fn lemma_insert_sorted(
    sorted: Seq<RenameProposal>,
    given: Seq<RenameProposal>,
    m: Measure,
    p: RenameProposal,
    at: int,
)
    requires
        sorted_by(sorted, given, m),
        0 <= at <= sorted.len(),
        forall|i: int| 0 <= i < at ==> m.of(#[trigger] sorted[i]) > m.of(p),
        at < sorted.len() ==> m.of(sorted[at]) <= m.of(p),
    ensures
        sorted_by(sorted.insert(at, p), seq![p] + given, m),
{
    let head = sorted.take(at);
    let tail = sorted.skip(at);
    let after = sorted.insert(at, p);
    assert(after =~= head + (seq![p] + tail));
    assert(sorted =~= head + tail);
    assert forall|n: nat| #[trigger] after.filter(measuring(m, n)) == (seq![p] + given).filter(
        measuring(m, n),
    ) by {
        let f = measuring(m, n);
        Seq::filter_distributes_over_add(head, seq![p] + tail, f);
        Seq::filter_distributes_over_add(seq![p], tail, f);
        Seq::filter_distributes_over_add(head, tail, f);
        Seq::filter_distributes_over_add(seq![p], given, f);
        assert(sorted.filter(f) == given.filter(f));
        if n == m.of(p) {
            assert forall|i: int| 0 <= i < head.len() implies !f(#[trigger] head[i]) by {
                assert(m.of(sorted[i]) > n);
            }
            head.lemma_all_neg_filter_empty(f);
            assert(after.filter(f) =~= seq![p].filter(f) + given.filter(f));
        } else {
            seq![p].lemma_all_neg_filter_empty(f);
            assert(after.filter(f) =~= given.filter(f));
        }
    }
}

/// Sorts proposals in descending order of a measure. Those of the same measure keep their
/// order.
pub fn sort_by(proposals: Vec<RenameProposal>, m: Measure) -> (r: Vec<RenameProposal>)
    ensures
        sorted_by(r@, proposals@, m),
{
    let ghost all = proposals@;
    let mut rest = proposals;
    let mut out: Vec<RenameProposal> = Vec::new();
    assert(all.skip(all.len() as int) =~= Seq::empty());
    while rest.len() > 0
        invariant
            rest@.len() <= all.len(),
            rest@ == all.take(rest@.len() as int),
            sorted_by(out@, all.skip(rest@.len() as int), m),
        decreases rest.len(),
    {
        let ghost given = all.skip(rest@.len() as int);
        if let Some(p) = rest.pop() {
            let n: usize = m.measure(&p);
            let mut at: usize = 0;
            while at < out.len() && m.measure(&out[at]) > n
                invariant
                    n == m.of(p),
                    at <= out.len(),
                    forall|i: int| 0 <= i < at ==> m.of(#[trigger] out@[i]) > n,
                decreases out.len() - at,
            {
                at = at + 1;
            }
            proof {
                lemma_insert_sorted(out@, given, m, p, at as int);
                assert(all.skip(rest@.len() as int) =~= seq![p] + given);
            }
            out.insert(at, p);
        }
    }
    assert(all.skip(0) =~= all);
    out
}

/// Whether each source has more parts than those that it lies in.
spec fn graded(proposals: Seq<RenameProposal>) -> bool {
    forall|i: int, j: int|
        0 <= i < proposals.len() && 0 <= j < proposals.len() && #[trigger] paths::lies_in(
            proposals[i].src_bytes(),
            proposals[j].src_bytes(),
        ) ==> Measure::Depth.of(proposals[i]) > Measure::Depth.of(proposals[j])
}

/// Whether each source comes before those that it lies in.
fn has_entries_first(proposals: &Vec<RenameProposal>) -> (r: bool)
    ensures
        r == entries_first(proposals@),
        graded(proposals@),
{
    let mut first = true;
    for i in 0..proposals.len()
        invariant
            !first ==> !entries_first(proposals@),
            forall|a: int, b: int|
                0 <= a < i && 0 <= b < proposals.len() && #[trigger] paths::lies_in(
                    proposals@[a].src_bytes(),
                    proposals@[b].src_bytes(),
                ) ==> (first ==> a < b) && Measure::Depth.of(proposals@[a]) > Measure::Depth.of(
                    proposals@[b],
                ),
    {
        for j in 0..proposals.len()
            invariant
                0 <= i < proposals.len(),
                !first ==> !entries_first(proposals@),
                forall|a: int, b: int|
                    0 <= b < proposals.len() && (0 <= a < i || a == i && b < j)
                        && #[trigger] paths::lies_in(
                        proposals@[a].src_bytes(),
                        proposals@[b].src_bytes(),
                    ) ==> (first ==> a < b) && Measure::Depth.of(proposals@[a])
                        > Measure::Depth.of(proposals@[b]),
        {
            let inner = &proposals[i].src;
            let outer = &proposals[j].src;
            if paths::starts_with(inner, outer) && !paths::same(inner, outer) {
                assert(paths::lies_in(
                    proposals@[i as int].src_bytes(),
                    proposals@[j as int].src_bytes(),
                ));
                if i >= j {
                    first = false;
                }
            }
        }
    }
    first
}

/// Puts proposals in the order in which they can be carried out.
pub fn order(proposals: Vec<RenameProposal>) -> (r: Vec<RenameProposal>)
    ensures
        ordered(r@, proposals@),
        entries_first(r@),
{
    let by_length = sort_by(proposals, Measure::Length);
    if has_entries_first(&by_length) {
        assert(ordered_from(by_length@, by_length@, proposals@));
        by_length
    } else {
        let by_depth = sort_by(by_length, Measure::Depth);
        assert(ordered_from(by_depth@, by_length@, proposals@));
        proof {
            lemma_deepest_first(by_depth@, by_length@);
        }
        by_depth
    }
}

/// Where the source of the most parts comes first, so does what lies in another one.
proof fn lemma_deepest_first(sorted: Seq<RenameProposal>, given: Seq<RenameProposal>)
    requires
        sorted_by(sorted, given, Measure::Depth),
        graded(given),
    ensures
        entries_first(sorted),
{
    lemma_sorted_same(sorted, given, Measure::Depth);
    sorted.to_multiset_ensures();
    given.to_multiset_ensures();
    assert forall|i: int, j: int|
        0 <= i < sorted.len() && 0 <= j < sorted.len() && #[trigger] paths::lies_in(
            sorted[i].src_bytes(),
            sorted[j].src_bytes(),
        ) implies i < j by {
        assert(sorted.contains(sorted[i]) && sorted.contains(sorted[j]));
        assert(sorted.to_multiset().count(sorted[i]) > 0);
        assert(sorted.to_multiset().count(sorted[j]) > 0);
        assert(given.contains(sorted[i]) && given.contains(sorted[j]));
        let a = choose|a: int| 0 <= a < given.len() && given[a] == sorted[i];
        let b = choose|b: int| 0 <= b < given.len() && given[b] == sorted[j];
        assert(paths::lies_in(given[a].src_bytes(), given[b].src_bytes()));
        assert(Measure::Depth.of(sorted[i]) > Measure::Depth.of(sorted[j]));
    }
}

/// The proposals alone, in the same order.
fn unprobed(probed: Vec<Probed>) -> (r: Vec<RenameProposal>)
    ensures
        r@ == proposals_of(probed@),
{
    let ghost all = probed@;
    let mut out: Vec<RenameProposal> = Vec::new();
    for p in it: probed
        invariant
            it.seq() == all,
            out@ == proposals_of(all.take(it.index() as int)),
    {
        proof {
            all.lemma_map_take_succ(|p: Probed| p.proposal, it.index() as int);
        }
        out.push(p.proposal);
    }
    assert(all.take(all.len() as int) =~= all);
    out
}

/// Keeping only what a condition holds of keeps all occurrences of a value that it holds
/// of.
proof fn lemma_count_in_filter(
    s: Seq<RenameProposal>,
    f: spec_fn(RenameProposal) -> bool,
    x: RenameProposal,
)
    requires
        f(x),
    ensures
        s.filter(f).to_multiset().count(x) == s.to_multiset().count(x),
    decreases s.len(),
{
    reveal(Seq::filter);
    s.to_multiset_ensures();
    if s.len() > 0 {
        let init = s.drop_last();
        lemma_count_in_filter(init, f, x);
        init.to_multiset_ensures();
        init.filter(f).to_multiset_ensures();
        assert(s =~= init.push(s.last()));
    }
}

/// Sorting neither adds nor loses a proposal.
pub proof fn lemma_sorted_same(
    sorted: Seq<RenameProposal>,
    given: Seq<RenameProposal>,
    m: Measure,
)
    requires
        sorted_by(sorted, given, m),
    ensures
        sorted.to_multiset() == given.to_multiset(),
{
    assert forall|x: RenameProposal| #[trigger] sorted.to_multiset().count(x)
        == given.to_multiset().count(x) by {
        let f = measuring(m, m.of(x));
        lemma_count_in_filter(sorted, f, x);
        lemma_count_in_filter(given, f, x);
        assert(sorted.filter(f) == given.filter(f));
    }
    assert(sorted.to_multiset() =~= given.to_multiset());
}

/// Putting proposals in order neither adds nor loses one.
pub proof fn lemma_ordered_same(proposals: Seq<RenameProposal>, given: Seq<RenameProposal>)
    requires
        ordered(proposals, given),
    ensures
        proposals.to_multiset() == given.to_multiset(),
{
    let by_length = choose|by_length: Seq<RenameProposal>|
        ordered_from(proposals, by_length, given);
    lemma_sorted_same(by_length, given, Measure::Length);
    if !entries_first(by_length) {
        lemma_sorted_same(proposals, by_length, Measure::Depth);
    }
}

/// There is one order in which proposals can be carried out.
pub proof fn lemma_ordered_unique(
    a: Seq<RenameProposal>,
    b: Seq<RenameProposal>,
    given: Seq<RenameProposal>,
)
    requires
        ordered(a, given),
        ordered(b, given),
    ensures
        a == b,
{
    let x = choose|x: Seq<RenameProposal>| ordered_from(a, x, given);
    let y = choose|y: Seq<RenameProposal>| ordered_from(b, y, given);
    lemma_sorted_unique(x, y, given, Measure::Length);
    if !entries_first(x) {
        lemma_sorted_unique(a, b, x, Measure::Depth);
    }
}

/// There is one descending order of a measure, where those of the same measure keep theirs.
proof fn lemma_sorted_unique(
    a: Seq<RenameProposal>,
    b: Seq<RenameProposal>,
    given: Seq<RenameProposal>,
    m: Measure,
)
    requires
        sorted_by(a, given, m),
        sorted_by(b, given, m),
    ensures
        a == b,
{
    lemma_sorted_same(a, given, m);
    lemma_sorted_same(b, given, m);
    a.to_multiset_ensures();
    b.to_multiset_ensures();
    assert forall|n: nat| #[trigger] a.filter(measuring(m, n)) == b.filter(
        measuring(m, n),
    ) by {
        assert(a.filter(measuring(m, n)) == given.filter(measuring(m, n)));
        assert(b.filter(measuring(m, n)) == given.filter(measuring(m, n)));
    }
    lemma_descending_unique(a, b, m);
}

/// Two descending orders are the same where those of each measure are in the same order.
proof fn lemma_descending_unique(a: Seq<RenameProposal>, b: Seq<RenameProposal>, m: Measure)
    requires
        descending(a, m),
        descending(b, m),
        a.len() == b.len(),
        forall|n: nat| #[trigger] a.filter(measuring(m, n)) == b.filter(measuring(m, n)),
    ensures
        a == b,
    decreases a.len(),
{
    if a.len() > 0 {
        let (p, q) = (a[0], b[0]);
        let (rest_a, rest_b) = (a.skip(1), b.skip(1));
        assert(a =~= seq![p] + rest_a);
        assert(b =~= seq![q] + rest_b);
        lemma_filter_first(p, rest_a, measuring(m, m.of(p)));
        lemma_filter_first(q, rest_b, measuring(m, m.of(q)));
        lemma_filter_first(p, rest_a, measuring(m, m.of(q)));
        lemma_filter_first(q, rest_b, measuring(m, m.of(p)));
        assert(a.filter(measuring(m, m.of(p))) == b.filter(measuring(m, m.of(p))));
        assert(a.filter(measuring(m, m.of(q))) == b.filter(measuring(m, m.of(q))));
        assert(m.of(p) == m.of(q)) by {
            if m.of(p) > m.of(q) {
                lemma_none_measures_more(b, m, m.of(p));
            } else if m.of(p) < m.of(q) {
                lemma_none_measures_more(a, m, m.of(q));
            }
        }
        assert((seq![p] + rest_a.filter(measuring(m, m.of(p))))[0] == p);
        assert((seq![q] + rest_b.filter(measuring(m, m.of(p))))[0] == q);
        assert forall|n: nat| #[trigger] rest_a.filter(measuring(m, n)) == rest_b.filter(
            measuring(m, n),
        ) by {
            let f = measuring(m, n);
            lemma_filter_first(p, rest_a, f);
            lemma_filter_first(q, rest_b, f);
            assert(a.filter(f) == b.filter(f));
            if f(p) {
                assert((seq![p] + rest_a.filter(f)).skip(1) =~= rest_a.filter(f));
                assert((seq![p] + rest_b.filter(f)).skip(1) =~= rest_b.filter(f));
            }
        }
        lemma_descending_unique(rest_a, rest_b, m);
    }
}

/// The first proposal is kept or dropped by itself.
proof fn lemma_filter_first(
    p: RenameProposal,
    rest: Seq<RenameProposal>,
    f: spec_fn(RenameProposal) -> bool,
)
    ensures
        (seq![p] + rest).filter(f) == if f(p) {
            seq![p] + rest.filter(f)
        } else {
            rest.filter(f)
        },
{
    Seq::filter_distributes_over_add(seq![p], rest, f);
    reveal_with_fuel(Seq::filter, 2);
    assert(seq![p].drop_last() =~= Seq::<RenameProposal>::empty());
    assert(seq![p].filter(f) =~= if f(p) {
        seq![p]
    } else {
        Seq::empty()
    });
    assert(Seq::<RenameProposal>::empty() + rest.filter(f) =~= rest.filter(f));
}

/// In descending order, nothing measures more than the first proposal.
proof fn lemma_none_measures_more(s: Seq<RenameProposal>, m: Measure, n: nat)
    requires
        descending(s, m),
        s.len() > 0,
        m.of(s[0]) < n,
    ensures
        s.filter(measuring(m, n)).len() == 0,
{
    let f = measuring(m, n);
    assert forall|i: int| 0 <= i < s.len() implies !f(#[trigger] s[i]) by {
        assert(m.of(s[0]) >= m.of(s[i]));
    }
    s.lemma_all_neg_filter_empty(f);
}

/// Another order keeps what holds of each proposal.
proof fn lemma_same_moves(other: Seq<RenameProposal>, given: Seq<RenameProposal>)
    requires
        other.to_multiset() == given.to_multiset(),
        all_move(given),
    ensures
        all_move(other),
{
    other.to_multiset_ensures();
    given.to_multiset_ensures();
    assert forall|i: int| 0 <= i < other.len() implies (#[trigger] other[i]).changes() by {
        assert(other.contains(other[i]));
        assert(other.to_multiset().count(other[i]) > 0);
        assert(given.contains(other[i]));
    }
}

/// Another order keeps destinations distinct.
proof fn lemma_same_distinct(other: Seq<RenameProposal>, given: Seq<RenameProposal>)
    requires
        other.to_multiset() == given.to_multiset(),
        distinct_destinations(given),
    ensures
        distinct_destinations(other),
{
    other.to_multiset_ensures();
    given.to_multiset_ensures();
    assert forall|i: int, j: int|
        0 <= i < other.len() && 0 <= j < other.len() && i != j implies !#[trigger]
    paths::same_path(other[i].dst_bytes(), other[j].dst_bytes()) by {
        let x = other[i];
        let y = other[j];
        assert(other.contains(x) && other.contains(y));
        assert(other.to_multiset().count(x) > 0);
        assert(given.contains(x));
        let a = choose|a: int| 0 <= a < given.len() && given[a] == x;
        // `y` occurs among the given ones at another place than `a`.
        let rest = given.remove(a);
        let other_rest = other.remove(i);
        rest.to_multiset_ensures();
        other_rest.to_multiset_ensures();
        assert(rest.to_multiset() =~= other_rest.to_multiset());
        let k = if j < i {
            j
        } else {
            j - 1
        };
        assert(other_rest[k] == y);
        assert(other_rest.contains(y));
        assert(other_rest.to_multiset().count(y) > 0);
        assert(rest.contains(y));
        let c = choose|c: int| 0 <= c < rest.len() && rest[c] == y;
        let b = if c < a {
            c
        } else {
            c + 1
        };
        assert(given[b] == y);
        assert(!paths::same_path(given[a].dst_bytes(), given[b].dst_bytes()));
    }
}

/// Whether one of the sources is a directory.
fn has_dir(probed: &Vec<Probed>) -> (r: bool)
    ensures
        r == any_dir(probed@),
{
    for i in 0..probed.len()
        invariant
            forall|j: int| 0 <= j < i ==> !(#[trigger] probed@[j]).src_is_dir,
    {
        if probed[i].src_is_dir {
            return true;
        }
    }
    false
}

/// Whether proposals are what attempts come to: those that change something, in their
/// order or, where one of the sources is a directory, in the order in which they can be
/// carried out.
pub open spec fn settled(proposals: Seq<RenameProposal>, probed: Seq<Probed>) -> bool {
    if any_dir(probed) {
        ordered(proposals, proposals_of(probed))
    } else {
        proposals == proposals_of(probed)
    }
}

/// The attempts, unless the failure of one of them stops everything.
pub fn unless_stopped(attempts: Vec<Attempt>) -> (r: Result<Vec<Attempt>, RenameError>)
    ensures
        match index_fault(attempts@) {
            Some(e) => r matches Err(found) && found@ == e,
            None => r matches Ok(rest) && rest@ == attempts@,
        },
{
    let ghost all = attempts@;
    let mut rest = attempts;
    assert(all.skip(0) =~= all);
    let n: usize = rest.len();
    for i in 0..n
        invariant
            n == rest.len(),
            rest@ == all,
            all == attempts@,
            index_fault(all) == index_fault(all.skip(i as int)),
    {
        assert(all.skip(i as int).skip(1) =~= all.skip(i + 1));
        if let Err(e) = &rest[i].outcome {
            if e.stops_all() {
                if let Err(e) = rest.remove(i).outcome {
                    return Err(e);
                }
            }
        }
    }
    Ok(rest)
}

impl Renamer {
    /// Settles on a set of renames, given what came of each path. Paths for which there is
    /// no proposal are left out, and so are those that would keep their path.
    ///
    /// It is an error if the index could not be read for one of the paths, if two of the
    /// proposals have an equivalent destination, or if there is something at a destination
    /// already. The proposals keep the order of the paths, unless one of the sources is a
    /// directory. Then the longest destination comes first or, where that would put a
    /// directory before one of its entries, the source of the most parts. So what lies in a
    /// directory is renamed before the directory itself, however the two are spelled.
    pub fn propose(&self, attempts: Vec<Attempt>) -> (r: Result<Vec<RenameProposal>, RenameError>)
        ensures
            match (index_fault(attempts@), first_fault(changes_of(attempts@))) {
                (Some(e), _) => error::viewed(r) == Err::<Seq<RenameProposal>, RenameErrorView>(e),
                (_, Some(e)) => error::viewed(r) == Err::<Seq<RenameProposal>, RenameErrorView>(e),
                _ => r matches Ok(proposals) && settled(proposals@, changes_of(attempts@)),
            },
            r matches Ok(proposals) ==> distinct_destinations(proposals@),
            r matches Ok(proposals) ==> all_move(proposals@),
            r is Ok ==> forall|i: int|
                0 <= i < attempts@.len() ==> ((#[trigger] attempts@[i]).outcome matches Ok(p)
                    ==> p.changes() ==> !attempts@[i].dst_exists),
            r matches Ok(proposals) ==> any_dir(changes_of(attempts@)) ==> entries_first(
                proposals@,
            ),
    {
        let attempts = match unless_stopped(attempts) {
            Err(e) => return Err(e),
            Ok(attempts) => attempts,
        };
        proof {
            settling::law_no_change_goes_where_something_is(attempts@);
        }
        let probed = changes(attempts);
        if let Some(e) = find_fault(&probed) {
            return Err(e);
        }
        let any_dir = has_dir(&probed);
        let proposals = unprobed(probed);
        if any_dir {
            let ghost given = proposals@;
            let in_order = order(proposals);
            proof {
                lemma_ordered_same(in_order@, given);
                lemma_same_distinct(in_order@, given);
                lemma_same_moves(in_order@, given);
            }
            Ok(in_order)
        } else {
            Ok(proposals)
        }
    }
}

} // verus!
