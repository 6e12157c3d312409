use vstd::prelude::*;

use crate::name::{
    lemma_name_lt_irreflexive, lemma_name_lt_total, lemma_name_lt_transitive, name_lt, names_of,
    ChannelName,
};

verus! {

/// Every label comes strictly before the labels after it.
pub open spec fn strictly_sorted(s: Seq<Seq<char>>) -> bool {
    forall|i: int, j: int| 0 <= i < j < s.len() ==> name_lt(#[trigger] s[i], #[trigger] s[j])
}

/// The map that pairs `names[i]` with `values[i]`.
pub open spec fn pairs_map(names: Seq<Seq<char>>, values: Seq<Seq<char>>) -> Map<Seq<char>, Seq<char>> {
    Map::new(
        |k: Seq<char>| names.contains(k),
        |k: Seq<char>| values[choose|i: int| 0 <= i < names.len() && names[i] == k],
    )
}

/// The map built by inserting the pairs of `s` in order: a later pair replaces an earlier one
/// with the same label.
pub open spec fn map_of_pairs(s: Seq<(Seq<char>, Seq<char>)>) -> Map<Seq<char>, Seq<char>>
    decreases s.len(),
{
    if s.len() == 0 {
        Map::empty()
    } else {
        map_of_pairs(s.drop_last()).insert(s.last().0, s.last().1)
    }
}

/// A map from channel labels to text (identifiers or other labels), kept sorted by label.
#[derive(Debug, Clone)]
pub struct NameMap {
    entries: Vec<(ChannelName, String)>,
}

/// In a strictly sorted sequence, the entry at `i` is what `pairs_map` gives for its label.
proof fn lemma_pairs_map_at(names: Seq<Seq<char>>, values: Seq<Seq<char>>, i: int)
    requires
        strictly_sorted(names),
        names.len() == values.len(),
        0 <= i < names.len(),
    ensures
        pairs_map(names, values).contains_key(names[i]),
        pairs_map(names, values)[names[i]] == values[i],
{
    let k = names[i];
    assert(names.contains(k));
    let j = choose|j: int| 0 <= j < names.len() && names[j] == k;
    lemma_name_lt_irreflexive(k);
    if j < i {
        assert(name_lt(names[j], names[i]));
    } else if i < j {
        assert(name_lt(names[i], names[j]));
    }
}

impl View for NameMap {
    type V = Map<Seq<char>, Seq<char>>;

    open spec fn view(&self) -> Map<Seq<char>, Seq<char>> {
        pairs_map(self.names(), self.values())
    }
}

impl NameMap {
    /// The labels, in order.
    pub closed spec fn names(&self) -> Seq<Seq<char>> {
        self.entries@.map_values(|p: (ChannelName, String)| p.0@)
    }

    /// The values, in the order of their labels.
    pub closed spec fn values(&self) -> Seq<Seq<char>> {
        self.entries@.map_values(|p: (ChannelName, String)| p.1@)
    }

    /// Labels strictly sorted, one value per label.
    pub open spec fn wf(&self) -> bool {
        &&& strictly_sorted(self.names())
        &&& self.names().len() == self.values().len()
    }

    /// Each label is a key of the map, with its value; every key is a label.
    pub proof fn lemma_view(&self)
        requires
            self.wf(),
        ensures
            forall|i: int|
                0 <= i < self.names().len() ==> {
                    &&& #[trigger] self@.contains_key(self.names()[i])
                    &&& self@[self.names()[i]] == self.values()[i]
                },
            forall|k: Seq<char>| #[trigger]
                self@.contains_key(k) <==> self.names().contains(k),
            self.names().no_duplicates(),
    {
        assert forall|i: int| 0 <= i < self.names().len() implies {
            &&& #[trigger] self@.contains_key(self.names()[i])
            &&& self@[self.names()[i]] == self.values()[i]
        } by {
            lemma_pairs_map_at(self.names(), self.values(), i);
        }
        assert forall|i: int, j: int|
            0 <= i < self.names().len() && 0 <= j < self.names().len() && i != j implies
            self.names()[i] != self.names()[j] by {
            if i < j {
                lemma_name_lt_irreflexive(self.names()[i]);
            } else {
                lemma_name_lt_irreflexive(self.names()[j]);
            }
        }
    }

    /// An empty map.
    pub fn new() -> (r: NameMap)
        ensures
            r.wf(),
            r@ == Map::<Seq<char>, Seq<char>>::empty(),
            r.names().len() == 0,
    {
        let r = NameMap { entries: Vec::new() };
        assert(r.names() =~= Seq::<Seq<char>>::empty());
        assert(r@ =~= Map::<Seq<char>, Seq<char>>::empty());
        r
    }

    /// Number of labels.
    pub fn len(&self) -> (r: usize)
        ensures
            r == self.names().len(),
    {
        self.entries.len()
    }

    /// The label at position `i`.
    pub fn name_at(&self, i: usize) -> (r: &ChannelName)
        requires
            i < self.names().len(),
        ensures
            r@ == self.names()[i as int],
    {
        &self.entries[i].0
    }

    /// The value at position `i`.
    pub fn value_at(&self, i: usize) -> (r: &String)
        requires
            i < self.names().len(),
        ensures
            r@ == self.values()[i as int],
    {
        &self.entries[i].1
    }

    /// The position of `name`, if it is a label.
    fn position(&self, name: &ChannelName) -> (r: Option<usize>)
        requires
            self.wf(),
        ensures
            match r {
                Some(i) => i < self.names().len() && self.names()[i as int] == name@,
                None => !self@.contains_key(name@),
            },
    {
        proof {
            self.lemma_view();
        }
        let mut i: usize = 0;
        while i < self.entries.len()
            invariant
                self.wf(),
                i <= self.names().len(),
                self.names().len() == self.entries@.len(),
                forall|j: int| 0 <= j < i ==> self.names()[j] != name@,
            decreases self.entries.len() - i,
        {
            if self.entries[i].0.same_as(name) {
                return Some(i);
            }
            i = i + 1;
        }
        None
    }

    /// Whether `name` is a label of the map.
    pub fn contains_key(&self, name: &ChannelName) -> (r: bool)
        requires
            self.wf(),
        ensures
            r == self@.contains_key(name@),
    {
        proof {
            self.lemma_view();
        }
        match self.position(name) {
            Some(_) => true,
            None => false,
        }
    }

    /// A copy of the value stored for `name`.
    pub fn get(&self, name: &ChannelName) -> (r: Option<String>)
        requires
            self.wf(),
        ensures
            match r {
                Some(v) => self@.contains_key(name@) && v@ == self@[name@],
                None => !self@.contains_key(name@),
            },
    {
        proof {
            self.lemma_view();
        }
        match self.position(name) {
            Some(i) => Some(self.entries[i].1.clone()),
            None => None,
        }
    }

    /// Sets the value for `name`, adding the label where it is new.
    pub fn insert(&mut self, name: ChannelName, value: String)
        requires
            old(self).wf(),
        ensures
            final(self).wf(),
            final(self)@ == old(self)@.insert(name@, value@),
    {
        let ghost names0 = self.names();
        let ghost values0 = self.values();
        let ghost n = name@;
        let ghost v = value@;
        proof {
            self.lemma_view();
        }
        let mut i: usize = 0;
        while i < self.entries.len() && self.entries[i].0.precedes(&name)
            invariant
                self.names() == names0,
                self.values() == values0,
                self.wf(),
                n == name@,
                i <= self.names().len(),
                self.names().len() == self.entries@.len(),
                forall|j: int| 0 <= j < i ==> name_lt(#[trigger] names0[j], n),
            decreases self.entries.len() - i,
        {
            i = i + 1;
        }
        if i < self.entries.len() && self.entries[i].0.same_as(&name) {
            self.entries.set(i, (name, value));
            proof {
                assert(names0[i as int] == n);
                assert(self.names() =~= names0);
                assert(self.values() =~= values0.update(i as int, v));
                self.lemma_view();
                assert forall|k: Seq<char>| #[trigger] self@.contains_key(k) implies self@[k]
                    == old(self)@.insert(n, v)[k] by {
                    let j = choose|j: int| 0 <= j < names0.len() && names0[j] == k;
                    lemma_pairs_map_at(names0, values0, j);
                    lemma_pairs_map_at(names0, values0.update(i as int, v), j);
                    if j != i {
                        assert(names0[j] != names0[i as int]);
                    }
                }
                assert(self@ =~= old(self)@.insert(n, v));
            }
        } else {
            proof {
                if i < names0.len() {
                    lemma_name_lt_total(names0[i as int], n);
                }
            }
            self.entries.insert(i, (name, value));
            proof {
                let ni = names0.insert(i as int, n);
                let vi = values0.insert(i as int, v);
                assert(self.names() =~= ni);
                assert(self.values() =~= vi);
                assert forall|a: int, b: int| 0 <= a < b < ni.len() implies name_lt(
                    #[trigger] ni[a],
                    #[trigger] ni[b],
                ) by {
                    if b == i {
                    } else if a == i {
                        if b > i + 1 {
                            lemma_name_lt_transitive(n, names0[i as int], names0[b - 1]);
                        }
                    } else if a < i && b > i {
                        assert(name_lt(names0[a], n));
                    }
                }
                self.lemma_view();
                assert forall|k: Seq<char>| #[trigger] self@.contains_key(k) implies self@[k]
                    == old(self)@.insert(n, v)[k] by {
                    if k != n {
                        let j = choose|j: int| 0 <= j < ni.len() && ni[j] == k;
                        if j < i {
                            lemma_pairs_map_at(names0, values0, j);
                            lemma_pairs_map_at(ni, vi, j);
                        } else {
                            lemma_pairs_map_at(names0, values0, j - 1);
                            lemma_pairs_map_at(ni, vi, j);
                        }
                    } else {
                        lemma_pairs_map_at(ni, vi, i as int);
                    }
                }
                assert forall|k: Seq<char>| old(self)@.insert(n, v).contains_key(k) implies
                    #[trigger] self@.contains_key(k) by {
                    if k != n {
                        let j = choose|j: int| 0 <= j < names0.len() && names0[j] == k;
                        if j < i {
                            assert(ni[j] == k);
                        } else {
                            assert(ni[j + 1] == k);
                        }
                    } else {
                        assert(ni[i as int] == n);
                    }
                }
                assert(self@ =~= old(self)@.insert(n, v));
            }
        }
    }

    /// Builds a map from pairs; a later pair replaces an earlier one with the same label.
    pub fn from_pairs(pairs: Vec<(String, String)>) -> (r: NameMap)
        ensures
            r.wf(),
            r@ == map_of_pairs(pairs@.map_values(|p: (String, String)| (p.0@, p.1@))),
    {
        let ghost ps = pairs@.map_values(|p: (String, String)| (p.0@, p.1@));
        let mut r = NameMap::new();
        let mut i: usize = 0;
        while i < pairs.len()
            invariant
                r.wf(),
                i <= pairs@.len(),
                ps == pairs@.map_values(|p: (String, String)| (p.0@, p.1@)),
                r@ == map_of_pairs(ps.subrange(0, i as int)),
            decreases pairs.len() - i,
        {
            let name = ChannelName::from_text(pairs[i].0.as_str());
            let value = pairs[i].1.clone();
            r.insert(name, value);
            proof {
                assert(ps.subrange(0, i + 1).drop_last() =~= ps.subrange(0, i as int));
            }
            i = i + 1;
        }
        assert(ps.subrange(0, i as int) =~= ps);
        r
    }

    /// The labels, in order.
    pub fn names_vec(&self) -> (r: Vec<ChannelName>)
        ensures
            names_of(r@) == self.names(),
    {
        let mut r: Vec<ChannelName> = Vec::new();
        let mut i: usize = 0;
        while i < self.entries.len()
            invariant
                i <= self.entries@.len(),
                r@.len() == i,
                forall|j: int| 0 <= j < i ==> #[trigger] r@[j]@ == self.entries@[j].0@,
            decreases self.entries.len() - i,
        {
            r.push(self.entries[i].0.duplicate());
            i = i + 1;
        }
        assert(names_of(r@) =~= self.names());
        r
    }

    /// A copy of this map.
    pub fn duplicate(&self) -> (r: NameMap)
        ensures
            r.names() == self.names(),
            r.values() == self.values(),
            r@ == self@,
    {
        let mut entries: Vec<(ChannelName, String)> = Vec::new();
        let mut i: usize = 0;
        while i < self.entries.len()
            invariant
                i <= self.entries@.len(),
                entries@.len() == i,
                forall|j: int| #![trigger entries@[j]] 0 <= j < i ==> entries@[j].0@ == self.entries@[j].0@
                    && entries@[j].1@ == self.entries@[j].1@,
            decreases self.entries.len() - i,
        {
            entries.push((self.entries[i].0.duplicate(), self.entries[i].1.clone()));
            i = i + 1;
        }
        let r = NameMap { entries };
        assert(r.names() =~= self.names());
        assert(r.values() =~= self.values());
        r
    }
}

} // verus!
