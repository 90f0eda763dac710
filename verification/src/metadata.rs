//! Metadata attached to a stored memory: a map from names to small JSON-like
//! values, kept as a list of entries whose names are pairwise distinct.
use vstd::prelude::*;

use crate::text::str_eq;

verus! {

/// A metadata value: a string, a boolean or a list of strings.
#[derive(Debug, Clone, PartialEq, Eq)]
pub enum MetaValue {
    Text(String),
    Flag(bool),
    List(Vec<String>),
}

/// The mathematical value of a [`MetaValue`].
pub enum MetaValueSpec {
    Text(Seq<char>),
    Flag(bool),
    List(Seq<Seq<char>>),
}

/// The views of a list of strings.
pub open spec fn strings_view(v: Seq<String>) -> Seq<Seq<char>> {
    v.map_values(|s: String| s@)
}

impl View for MetaValue {
    type V = MetaValueSpec;

    open spec fn view(&self) -> MetaValueSpec {
        match self {
            MetaValue::Text(s) => MetaValueSpec::Text(s@),
            MetaValue::Flag(b) => MetaValueSpec::Flag(*b),
            MetaValue::List(v) => MetaValueSpec::List(strings_view(v@)),
        }
    }
}

/// The map that a list of entries describes, later entries taking precedence.
pub open spec fn map_of(s: Seq<(Seq<char>, MetaValueSpec)>) -> Map<Seq<char>, MetaValueSpec>
    decreases s.len(),
{
    if s.len() == 0 {
        Map::empty()
    } else {
        map_of(s.drop_last()).insert(s.last().0, s.last().1)
    }
}

/// Whether no name occurs twice in the list of entries.
pub open spec fn names_distinct(s: Seq<(Seq<char>, MetaValueSpec)>) -> bool {
    forall|i: int, j: int| 0 <= i < j < s.len() ==> #[trigger] s[i].0 != #[trigger] s[j].0
}

proof fn lemma_map_of_dom(s: Seq<(Seq<char>, MetaValueSpec)>, k: Seq<char>)
    ensures
        map_of(s).dom().contains(k) <==> exists|i: int| 0 <= i < s.len() && #[trigger] s[i].0 == k,
    decreases s.len(),
{
    if s.len() > 0 {
        lemma_map_of_dom(s.drop_last(), k);
        if map_of(s).dom().contains(k) && k != s.last().0 {
            let i = choose|i: int| 0 <= i < s.drop_last().len() && #[trigger] s.drop_last()[i].0 == k;
            assert(s[i].0 == k);
        }
        if exists|i: int| 0 <= i < s.len() && #[trigger] s[i].0 == k {
            let i = choose|i: int| 0 <= i < s.len() && #[trigger] s[i].0 == k;
            if i < s.len() - 1 {
                assert(s.drop_last()[i].0 == k);
            }
        }
    }
}

proof fn lemma_map_of_len(s: Seq<(Seq<char>, MetaValueSpec)>)
    requires
        names_distinct(s),
    ensures
        map_of(s).dom().finite(),
        map_of(s).dom().len() == s.len(),
    decreases s.len(),
{
    if s.len() > 0 {
        let t = s.drop_last();
        assert(names_distinct(t)) by {
            assert forall|a: int, b: int| 0 <= a < b < t.len() implies #[trigger] t[a].0
                != #[trigger] t[b].0 by {
                assert(t[a] == s[a] && t[b] == s[b]);
            }
        }
        lemma_map_of_len(t);
        lemma_map_of_dom(t, s.last().0);
        if map_of(t).dom().contains(s.last().0) {
            let i = choose|i: int| 0 <= i < t.len() && #[trigger] t[i].0 == s.last().0;
            assert(t[i] == s[i]);
        }
    }
}

proof fn lemma_map_of_index(s: Seq<(Seq<char>, MetaValueSpec)>, i: int)
    requires
        names_distinct(s),
        0 <= i < s.len(),
    ensures
        map_of(s).dom().contains(s[i].0),
        map_of(s)[s[i].0] == s[i].1,
    decreases s.len(),
{
    if i < s.len() - 1 {
        let t = s.drop_last();
        assert(t[i] == s[i]);
        assert(names_distinct(t)) by {
            assert forall|a: int, b: int| 0 <= a < b < t.len() implies #[trigger] t[a].0
                != #[trigger] t[b].0 by {
                assert(t[a] == s[a] && t[b] == s[b]);
            }
        }
        lemma_map_of_index(t, i);
        assert(s[i].0 != s.last().0);
    }
}

proof fn lemma_map_of_update(s: Seq<(Seq<char>, MetaValueSpec)>, i: int, v: MetaValueSpec)
    requires
        names_distinct(s),
        0 <= i < s.len(),
    ensures
        names_distinct(s.update(i, (s[i].0, v))),
        map_of(s.update(i, (s[i].0, v))) =~= map_of(s).insert(s[i].0, v),
    decreases s.len(),
{
    let u = s.update(i, (s[i].0, v));
    assert forall|a: int, b: int| 0 <= a < b < u.len() implies #[trigger] u[a].0
        != #[trigger] u[b].0 by {
        assert(u[a].0 == s[a].0 && u[b].0 == s[b].0);
    }
    let t = s.drop_last();
    assert(names_distinct(t)) by {
        assert forall|a: int, b: int| 0 <= a < b < t.len() implies #[trigger] t[a].0
            != #[trigger] t[b].0 by {
            assert(t[a] == s[a] && t[b] == s[b]);
        }
    }
    if i == s.len() - 1 {
        assert(u.drop_last() =~= t);
    } else {
        lemma_map_of_update(t, i, v);
        assert(u.drop_last() =~= t.update(i, (s[i].0, v)));
        assert(s[i].0 != s.last().0);
    }
}

/// What an insertion does to a lookup: the inserted name reads back the
/// inserted value, and every other name reads what it read before.
pub proof fn lemma_read_after_insert(
    before: Map<Seq<char>, MetaValueSpec>,
    after: Map<Seq<char>, MetaValueSpec>,
    key: Seq<char>,
    value: MetaValueSpec,
    other: Seq<char>,
)
    requires
        after == before.insert(key, value),
    ensures
        after.dom().contains(key),
        after[key] == value,
        other != key ==> (after.dom().contains(other) <==> before.dom().contains(other)),
        other != key && before.dom().contains(other) ==> after[other] == before[other],
{
}

/// Metadata of a memory, a map from names to values.
#[derive(Debug)]
pub struct Metadata {
    entries: Vec<(String, MetaValue)>,
}

impl Metadata {
    /// The entries as names and values.
    pub closed spec fn pairs(&self) -> Seq<(Seq<char>, MetaValueSpec)> {
        self.entries@.map_values(|e: (String, MetaValue)| (e.0@, e.1@))
    }

    #[verifier::type_invariant]
    closed spec fn distinct_names(&self) -> bool {
        names_distinct(self.pairs())
    }

    /// The metadata as a map from names to values.
    pub closed spec fn map(&self) -> Map<Seq<char>, MetaValueSpec> {
        map_of(self.pairs())
    }

    /// Metadata without any entry.
    pub fn new() -> (r: Metadata)
        ensures
            r.map() == Map::<Seq<char>, MetaValueSpec>::empty(),
    {
        let r = Metadata { entries: Vec::new() };
        assert(r.pairs() =~= Seq::empty());
        r
    }

    /// The position of the entry named `key`, if there is one.
    fn position(&self, key: &str) -> (r: Option<usize>)
        ensures
            match r {
                Some(i) => i < self.pairs().len() && self.pairs()[i as int].0 == key@,
                None => forall|i: int| 0 <= i < self.pairs().len() ==> #[trigger] self.pairs()[i].0 != key@,
            },
    {
        let n = self.entries.len();
        let mut i: usize = 0;
        while i < n
            invariant
                i <= n,
                n == self.entries@.len(),
                self.pairs().len() == n,
                forall|j: int| 0 <= j < i ==> #[trigger] self.pairs()[j].0 != key@,
            decreases n - i,
        {
            if str_eq(self.entries[i].0.as_str(), key) {
                return Some(i);
            }
            i = i + 1;
        }
        None
    }

    /// Sets the entry named `key` to `value`, replacing the value of an
    /// entry with that name.
    pub fn insert(&mut self, key: String, value: MetaValue)
        ensures
            final(self).map() == old(self).map().insert(key@, value@),
    {
        proof {
            use_type_invariant(&*self);
        }
        let ghost old_pairs = self.pairs();
        let pos = self.position(key.as_str());
        let mut entries: Vec<(String, MetaValue)> = Vec::new();
        std::mem::swap(&mut entries, &mut self.entries);
        assert(entries@.map_values(|e: (String, MetaValue)| (e.0@, e.1@)) =~= old_pairs);
        match pos {
            Some(i) => {
                proof {
                    lemma_map_of_update(old_pairs, i as int, value@);
                }
                entries.set(i, (key, value));
                assert(entries@.map_values(|e: (String, MetaValue)| (e.0@, e.1@))
                    =~= old_pairs.update(i as int, (old_pairs[i as int].0, value@)));
            },
            None => {
                let ghost kv = key@;
                let ghost vv = value@;
                entries.push((key, value));
                let ghost new_pairs = entries@.map_values(|e: (String, MetaValue)| (e.0@, e.1@));
                assert(new_pairs =~= old_pairs.push((kv, vv)));
                assert(new_pairs.drop_last() =~= old_pairs);
                assert(names_distinct(new_pairs)) by {
                    assert forall|a: int, b: int| 0 <= a < b < new_pairs.len() implies
                        #[trigger] new_pairs[a].0 != #[trigger] new_pairs[b].0 by {
                        if b < old_pairs.len() {
                            assert(new_pairs[a] == old_pairs[a] && new_pairs[b] == old_pairs[b]);
                        } else {
                            assert(new_pairs[a] == old_pairs[a]);
                        }
                    }
                }
            },
        }
        self.entries = entries;
    }

    /// The value of the entry named `key`, if there is one.
    pub fn get(&self, key: &str) -> (r: Option<&MetaValue>)
        ensures
            match r {
                Some(v) => self.map().dom().contains(key@) && self.map()[key@] == v@,
                None => !self.map().dom().contains(key@),
            },
    {
        proof {
            use_type_invariant(self);
            lemma_map_of_dom(self.pairs(), key@);
        }
        match self.position(key) {
            Some(i) => {
                proof {
                    lemma_map_of_index(self.pairs(), i as int);
                }
                Some(&self.entries[i].1)
            },
            None => None,
        }
    }

    /// Whether there is an entry named `key`.
    pub fn contains_key(&self, key: &str) -> (r: bool)
        ensures
            r == self.map().dom().contains(key@),
    {
        self.get(key).is_some()
    }

    /// The entries, each name once, that make up the metadata.
    pub fn into_entries(self) -> (r: Vec<(String, MetaValue)>)
        ensures
            names_distinct(r@.map_values(|e: (String, MetaValue)| (e.0@, e.1@))),
            map_of(r@.map_values(|e: (String, MetaValue)| (e.0@, e.1@))) == self.map(),
    {
        proof {
            use_type_invariant(&self);
        }
        self.entries
    }

    /// The number of entries.
    pub fn len(&self) -> (r: usize)
        ensures
            r == self.map().dom().len(),
    {
        proof {
            use_type_invariant(self);
            lemma_map_of_len(self.pairs());
        }
        self.entries.len()
    }
}

} // verus!
