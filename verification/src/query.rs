//! Queries to IMDb, and a memory of what they were answered.
use crate::entity::TitleKind;
use vstd::prelude::*;

verus! {

/// A search for an entity. A bound that is not there excludes nothing.
#[derive(Debug)]
pub struct Query {
    /// The name to search for.
    pub name: String,
    /// The earliest year.
    pub year_ge: Option<u32>,
    /// The latest year.
    pub year_le: Option<u32>,
    /// The kinds of title that may be found.
    pub kinds: Vec<TitleKind>,
    /// The least number of votes.
    pub votes_ge: Option<u32>,
}

/// A query as a mathematical value.
#[verifier::ext_equal]
pub struct QueryView {
    pub name: Seq<char>,
    pub year_ge: Option<u32>,
    pub year_le: Option<u32>,
    pub kinds: Seq<TitleKind>,
    pub votes_ge: Option<u32>,
}

impl View for Query {
    type V = QueryView;

    open spec fn view(&self) -> QueryView {
        QueryView {
            name: self.name@,
            year_ge: self.year_ge,
            year_le: self.year_le,
            kinds: self.kinds@,
            votes_ge: self.votes_ge,
        }
    }
}

impl Query {
    /// A query that asks for the same.
    pub fn duplicate(&self) -> (r: Query)
        ensures
            r@ == self@,
    {
        let mut kinds: Vec<TitleKind> = Vec::new();
        for i in 0..self.kinds.len()
            invariant
                kinds@ == self.kinds@.take(i as int),
        {
            kinds.push(self.kinds[i]);
        }
        Query {
            name: self.name.clone(),
            year_ge: self.year_ge,
            year_le: self.year_le,
            kinds,
            votes_ge: self.votes_ge,
        }
    }

    /// Whether two queries ask for the same.
    pub fn same(&self, other: &Query) -> (r: bool)
        ensures
            r == (self@ == other@),
    {
        if self.name != other.name || self.kinds.len() != other.kinds.len() {
            return false;
        }
        if !same_bound(self.year_ge, other.year_ge) || !same_bound(self.year_le, other.year_le)
            || !same_bound(self.votes_ge, other.votes_ge) {
            return false;
        }
        for i in 0..self.kinds.len()
            invariant
                self.kinds.len() == other.kinds.len(),
                forall|j: int| 0 <= j < i ==> self.kinds@[j] == other.kinds@[j],
        {
            if self.kinds[i] != other.kinds[i] {
                return false;
            }
        }
        assert(self@ =~= other@);
        true
    }
}

fn same_bound(a: Option<u32>, b: Option<u32>) -> (r: bool)
    ensures
        r == (a == b),
{
    match (a, b) {
        (Some(x), Some(y)) => x == y,
        (None, None) => true,
        _ => false,
    }
}

/// Whether the entry at an index is the query's.
spec fn entry_at<V>(entries: Seq<(Query, V)>, i: int, query: QueryView) -> bool {
    0 <= i < entries.len() && entries[i].0@ == query
}

/// Whether no query has two entries.
spec fn one_each<V>(entries: Seq<(Query, V)>) -> bool {
    forall|i: int, j: int|
        0 <= i < j < entries.len() ==> (#[trigger] entries[i]).0@ != (#[trigger] entries[j]).0@
}

/// The value of each query that has an entry.
spec fn contents<V>(entries: Seq<(Query, V)>) -> Map<QueryView, V> {
    Map::new(
        |q: QueryView| exists|i: int| entry_at(entries, i, q),
        |q: QueryView| entries[choose|i: int| entry_at(entries, i, q)].1,
    )
}

proof fn lemma_contents_at<V>(entries: Seq<(Query, V)>, i: int)
    requires
        one_each(entries),
        0 <= i < entries.len(),
    ensures
        contents(entries).contains_key(entries[i].0@),
        contents(entries)[entries[i].0@] == entries[i].1,
{
    let q = entries[i].0@;
    assert(entry_at(entries, i, q));
    let k = choose|k: int| entry_at(entries, k, q);
    assert(k == i) by {
        if k < i {
            assert(entries[k].0@ != entries[i].0@);
        } else if i < k {
            assert(entries[i].0@ != entries[k].0@);
        }
    }
}

proof fn lemma_contents_push<V>(entries: Seq<(Query, V)>, query: Query, value: V)
    requires
        one_each(entries),
        !contents(entries).contains_key(query@),
    ensures
        one_each(entries.push((query, value))),
        contents(entries.push((query, value))) == contents(entries).insert(query@, value),
{
    let after = entries.push((query, value));
    assert forall|i: int, j: int| 0 <= i < j < after.len() implies (#[trigger] after[i]).0@ != (
    #[trigger] after[j]).0@ by {
        if j == entries.len() {
            lemma_contents_at(entries, i);
        }
    }
    lemma_contents_at(after, entries.len() as int);
    assert forall|q: QueryView|
        #![trigger contents(after).dom().contains(q)]
        #![trigger contents(entries).dom().contains(q)]
        #![trigger contents(after)[q]]
        q != query@ implies contents(after).contains_key(q) == contents(entries).contains_key(q)
        && (contents(after).contains_key(q) ==> contents(after)[q] == contents(entries)[q]) by {
        if contents(after).contains_key(q) {
            let i = choose|i: int| entry_at(after, i, q);
            lemma_contents_at(after, i);
            lemma_contents_at(entries, i);
        }
        if contents(entries).contains_key(q) {
            let i = choose|i: int| entry_at(entries, i, q);
            assert(entry_at(after, i, q));
        }
    }
    assert(contents(after) =~= contents(entries).insert(query@, value));
}

proof fn lemma_contents_remove<V>(entries: Seq<(Query, V)>, k: int)
    requires
        one_each(entries),
        0 <= k < entries.len(),
    ensures
        one_each(entries.remove(k)),
        contents(entries.remove(k)) == contents(entries).remove(entries[k].0@),
{
    let after = entries.remove(k);
    let gone = entries[k].0@;
    assert forall|i: int, j: int| 0 <= i < j < after.len() implies (#[trigger] after[i]).0@ != (
    #[trigger] after[j]).0@ by {
        let a = if i < k {
            i
        } else {
            i + 1
        };
        let b = if j < k {
            j
        } else {
            j + 1
        };
        assert(entries[a].0@ != entries[b].0@);
    }
    assert forall|q: QueryView|
        #![trigger contents(after).dom().contains(q)]
        #![trigger contents(entries).dom().contains(q)]
        #![trigger contents(after)[q]]
        contents(after).contains_key(q) == (q != gone && contents(entries).contains_key(q)) && (
        contents(after).contains_key(q) ==> contents(after)[q] == contents(entries)[q]) by {
        if contents(after).contains_key(q) {
            let i = choose|i: int| entry_at(after, i, q);
            lemma_contents_at(after, i);
            let a = if i < k {
                i
            } else {
                i + 1
            };
            lemma_contents_at(entries, a);
            if a < k {
                assert(entries[a].0@ != entries[k].0@);
            } else {
                assert(entries[k].0@ != entries[a].0@);
            }
        }
        if q != gone && contents(entries).contains_key(q) {
            let a = choose|a: int| entry_at(entries, a, q);
            let i = if a < k {
                a
            } else {
                a - 1
            };
            assert(entry_at(after, i, q));
        }
    }
    assert(contents(after) =~= contents(entries).remove(gone));
}

/// What is remembered of queries that were answered: one value for each.
#[derive(Debug)]
pub struct QueryCache<V> {
    entries: Vec<(Query, V)>,
}

impl<V> View for QueryCache<V> {
    type V = Map<QueryView, V>;

    closed spec fn view(&self) -> Map<QueryView, V> {
        contents(self.entries@)
    }
}

impl<V> QueryCache<V> {
    /// No query has two entries.
    #[verifier::type_invariant]
    spec fn wf(self) -> bool {
        one_each(self.entries@)
    }

    /// A cache that remembers nothing.
    pub fn new() -> (r: QueryCache<V>)
        ensures
            r@ == Map::<QueryView, V>::empty(),
    {
        let r = QueryCache { entries: Vec::new() };
        assert(r@ =~= Map::<QueryView, V>::empty());
        r
    }

    /// Where the query's entry stands.
    fn position(&self, query: &Query) -> (r: Option<usize>)
        ensures
            r matches Some(i) ==> entry_at(self.entries@, i as int, query@),
            r is None ==> !self@.contains_key(query@),
    {
        for i in 0..self.entries.len()
            invariant
                forall|j: int| 0 <= j < i ==> (#[trigger] self.entries@[j]).0@ != query@,
        {
            if self.entries[i].0.same(query) {
                return Some(i);
            }
        }
        None
    }

    /// What is remembered of a query.
    pub fn get(&self, query: &Query) -> (r: Option<&V>)
        ensures
            r is Some <==> self@.contains_key(query@),
            r matches Some(v) ==> *v == self@[query@],
    {
        proof {
            use_type_invariant(self);
        }
        match self.position(query) {
            Some(i) => {
                proof {
                    lemma_contents_at(self.entries@, i as int);
                }
                Some(&self.entries[i].1)
            },
            None => None,
        }
    }

    /// Remembers a value for a query, in place of the one it had.
    pub fn insert(&mut self, query: Query, value: V)
        ensures
            final(self)@ == old(self)@.insert(query@, value),
    {
        proof {
            use_type_invariant(&*self);
        }
        let at = self.position(&query);
        let mut entries: Vec<(Query, V)> = Vec::new();
        std::mem::swap(&mut entries, &mut self.entries);
        let ghost before = contents(entries@);
        if let Some(i) = at {
            proof {
                lemma_contents_remove(entries@, i as int);
            }
            entries.remove(i);
        }
        proof {
            lemma_contents_push(entries@, query, value);
            assert(contents(entries@).insert(query@, value) =~= before.insert(query@, value));
        }
        entries.push((query, value));
        self.entries = entries;
    }
}

} // verus!
