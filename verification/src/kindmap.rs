//! A small map from kind names to values that remembers the order in which
//! its keys first came.

use vstd::prelude::*;
use crate::text::texts;

verus! {

/// Values by kind name. No name occurs twice, and the names stay in the order
/// of their first insertion.
pub struct KindMap<V> {
    names: Vec<String>,
    entries: Vec<V>,
}

/// Where `name` stands in `names`: any index that holds it.
pub open spec fn position(names: Seq<Seq<char>>, name: Seq<char>) -> int {
    choose|i: int| 0 <= i < names.len() && names[i] == name
}

/// The map that a list of distinct names and the values beside them stand for.
pub open spec fn paired<V>(names: Seq<Seq<char>>, values: Seq<V>) -> Map<Seq<char>, V> {
    Map::new(|name: Seq<char>| names.contains(name), |name: Seq<char>| values[position(names, name)])
}

/// Under distinct names each name leads to the value beside it.
pub proof fn lemma_paired_at<V>(names: Seq<Seq<char>>, values: Seq<V>, i: int)
    requires
        names.no_duplicates(),
        0 <= i < names.len(),
    ensures
        paired(names, values).contains_key(names[i]),
        paired(names, values)[names[i]] == values[i],
        position(names, names[i]) == i,
{
    assert(names.contains(names[i]));
}

/// Appending a new name adds one entry to the map.
pub proof fn lemma_paired_push<V>(names: Seq<Seq<char>>, values: Seq<V>, name: Seq<char>, value: V)
    requires
        names.no_duplicates(),
        names.len() == values.len(),
        !names.contains(name),
    ensures
        names.push(name).no_duplicates(),
        paired(names.push(name), values.push(value)) == paired(names, values).insert(name, value),
{
    let names2 = names.push(name);
    let values2 = values.push(value);
    assert(names2.no_duplicates()) by {
        assert forall|i: int, j: int| 0 <= i < names2.len() && 0 <= j < names2.len() && i != j implies names2[i] != names2[j] by {
            if i < names.len() && j < names.len() {
            } else if i < names.len() {
                assert(names.contains(names[i]));
            } else {
                assert(names.contains(names[j]));
            }
        }
    }
    let lhs = paired(names2, values2);
    let rhs = paired(names, values).insert(name, value);
    assert forall|k: Seq<char>| lhs.contains_key(k) == rhs.contains_key(k) by {
        assert(names2[names.len() as int] == name);
        if names.contains(k) {
            let i = names.index_of(k);
            assert(names2[i] == k);
        }
        if names2.contains(k) {
            let i = names2.index_of(k);
            if i < names.len() {
                assert(names[i] == k);
            }
        }
    }
    assert forall|k: Seq<char>| lhs.contains_key(k) implies lhs[k] == rhs[k] by {
        let i = names2.index_of(k);
        lemma_paired_at(names2, values2, i);
        if i < names.len() {
            assert(names[i] == k);
            lemma_paired_at(names, values, i);
        }
    }
    assert(lhs =~= rhs);
}

/// Replacing the value beside a name replaces that entry of the map.
pub proof fn lemma_paired_update<V>(names: Seq<Seq<char>>, values: Seq<V>, i: int, value: V)
    requires
        names.no_duplicates(),
        names.len() == values.len(),
        0 <= i < names.len(),
    ensures
        paired(names, values.update(i, value)) == paired(names, values).insert(names[i], value),
{
    let values2 = values.update(i, value);
    let lhs = paired(names, values2);
    let rhs = paired(names, values).insert(names[i], value);
    assert(names.contains(names[i]));
    assert forall|k: Seq<char>| lhs.contains_key(k) implies lhs[k] == rhs[k] by {
        let j = names.index_of(k);
        lemma_paired_at(names, values2, j);
        lemma_paired_at(names, values, j);
    }
    assert(lhs =~= rhs);
}

impl<V> KindMap<V> {
    /// The names, in the order of their first insertion.
    pub closed spec fn kinds(&self) -> Seq<Seq<char>> {
        texts(self.names@)
    }

    /// The values, each at the index of its name.
    pub closed spec fn items(&self) -> Seq<V> {
        self.entries@
    }

    /// The entries as pairs of a name and its value, in insertion order.
    pub open spec fn pairs(&self) -> Seq<(Seq<char>, V)> {
        Seq::new(self.kinds().len(), |i: int| (self.kinds()[i], self.items()[i]))
    }

    /// Each name stands once, with one value beside it.
    pub open spec fn wf(&self) -> bool {
        &&& self.kinds().len() == self.items().len()
        &&& self.kinds().no_duplicates()
    }

    /// What every map in memory fulfils.
    #[verifier::type_invariant]
    pub open spec fn valid(&self) -> bool {
        self.wf()
    }

    /// An empty map.
    pub fn new() -> (map: Self)
        ensures
            map.wf(),
            map.kinds() == Seq::<Seq<char>>::empty(),
            map.items() == Seq::<V>::empty(),
            map@ == Map::<Seq<char>, V>::empty(),
    {
        let map = KindMap { names: Vec::new(), entries: Vec::new() };
        assert(map.kinds() =~= Seq::<Seq<char>>::empty());
        assert(map@ =~= Map::<Seq<char>, V>::empty());
        map
    }

    /// The number of names.
    pub fn len(&self) -> (n: usize)
        ensures
            self.wf(),
            n == self.kinds().len(),
            n == self.items().len(),
            n == self@.len(),
    {
        proof {
            use_type_invariant(self);
            self.lemma_view_len();
        }
        self.names.len()
    }

    /// Whether the map holds no name.
    pub fn is_empty(&self) -> (empty: bool)
        ensures
            self.wf(),
            empty == (self.kinds().len() == 0),
    {
        proof {
            use_type_invariant(self);
        }
        self.names.len() == 0
    }

    /// The index at which `kind` stands, if it does.
    fn find(&self, kind: &str) -> (found: Option<usize>)
        ensures
            self.wf(),
            match found {
                Some(i) => i < self.kinds().len() && self.kinds()[i as int] == kind@,
                None => !self.kinds().contains(kind@),
            },
    {
        proof {
            use_type_invariant(self);
        }
        let mut i: usize = 0;
        while i < self.names.len()
            invariant
                self.wf(),
                i <= self.names.len(),
                forall|j: int| 0 <= j < i ==> self.kinds()[j] != kind@,
            decreases self.names.len() - i,
        {
            if *self.names[i].as_str() == *kind {
                return Some(i);
            }
            i += 1;
        }
        None
    }

    /// Whether the map holds `kind`.
    pub fn contains_key(&self, kind: &str) -> (found: bool)
        ensures
            self.wf(),
            found == self@.contains_key(kind@),
            found == self.kinds().contains(kind@),
    {
        self.find(kind).is_some()
    }

    /// The value under `kind`.
    pub fn get(&self, kind: &str) -> (value: Option<&V>)
        ensures
            self.wf(),
            match value {
                Some(v) => self@.contains_key(kind@) && *v == self@[kind@],
                None => !self@.contains_key(kind@),
            },
    {
        match self.find(kind) {
            Some(i) => {
                proof {
                    lemma_paired_at(self.kinds(), self.items(), i as int);
                }
                Some(&self.entries[i])
            },
            None => None,
        }
    }

    /// The name and the value at index `i` in insertion order.
    pub fn entry(&self, i: usize) -> (pair: Option<(&String, &V)>)
        ensures
            self.wf(),
            match pair {
                Some((name, value)) => i < self.kinds().len() && name@ == self.kinds()[i as int]
                    && *value == self.items()[i as int] && self@[name@] == *value,
                None => i >= self.kinds().len(),
            },
    {
        proof {
            use_type_invariant(self);
        }
        if i < self.names.len() {
            proof {
                lemma_paired_at(self.kinds(), self.items(), i as int);
            }
            Some((&self.names[i], &self.entries[i]))
        } else {
            None
        }
    }

    /// Puts `value` under `kind`. A kind that the map already holds keeps its
    /// place and gets the new value; the value it had is returned.
    pub fn insert(&mut self, kind: String, value: V) -> (previous: Option<V>)
        ensures
            final(self).wf(),
            final(self)@ == old(self)@.insert(kind@, value),
            match previous {
                Some(v) => old(self)@.contains_key(kind@) && v == old(self)@[kind@]
                    && final(self).kinds() == old(self).kinds()
                    && final(self).items() == old(self).items().update(
                    position(old(self).kinds(), kind@),
                    value,
                ),
                None => !old(self)@.contains_key(kind@)
                    && final(self).kinds() == old(self).kinds().push(kind@)
                    && final(self).items() == old(self).items().push(value),
            },
    {
        proof {
            use_type_invariant(&*self);
        }
        let found = self.find(kind.as_str());
        let mut taken = KindMap::new();
        std::mem::swap(self, &mut taken);
        let KindMap { mut names, mut entries } = taken;
        let previous = match found {
            Some(i) => {
                proof {
                    lemma_paired_at(texts(names@), entries@, i as int);
                    lemma_paired_update(texts(names@), entries@, i as int, value);
                }
                let mut value = value;
                std::mem::swap(&mut entries[i], &mut value);
                Some(value)
            },
            None => {
                proof {
                    lemma_paired_push(texts(names@), entries@, kind@, value);
                    assert(texts(names@.push(kind)) =~= texts(names@).push(kind@));
                }
                names.push(kind);
                entries.push(value);
                None
            },
        };
        *self = KindMap { names, entries };
        previous
    }

    /// A map of distinct names has as many entries as names.
    pub proof fn lemma_view_len(&self)
        requires
            self.wf(),
        ensures
            self@.dom().finite(),
            self@.len() == self.kinds().len(),
            self@.dom() == self.kinds().to_set(),
    {
        assert(self@.dom() =~= self.kinds().to_set());
        self.kinds().unique_seq_to_set();
    }
}

impl<V> View for KindMap<V> {
    type V = Map<Seq<char>, V>;

    open spec fn view(&self) -> Map<Seq<char>, V> {
        paired(self.kinds(), self.items())
    }
}

} // verus!
