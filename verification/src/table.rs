//! A table keyed by unit name, kept in the order in which names first arrive.

use crate::unit::ModuleInfo;
use vstd::prelude::*;

verus! {

/// The keys that a list of names stands for, in the same order.
pub open spec fn key_list(names: Seq<String>) -> Seq<Seq<char>> {
    names.map_values(|s: String| s@)
}

/// In a list without repetition, an element is found at its own position.
pub proof fn lemma_index_of_unique<A>(s: Seq<A>, i: int)
    requires
        s.no_duplicates(),
        0 <= i < s.len(),
    ensures
        s.contains(s[i]),
        s.index_of(s[i]) == i,
{
    let j = s.index_of(s[i]);
    assert(0 <= j < s.len() && s[j] == s[i]);
}

/// The elements among the first `i + 1` of a list are those among the first
/// `i`, and the one at position `i`.
pub proof fn lemma_take_step_to_set<A>(s: Seq<A>, i: int)
    requires
        0 <= i < s.len(),
    ensures
        s.take(i + 1).to_set() == s.take(i).to_set().insert(s[i]),
{
    let longer = s.take(i + 1);
    let shorter = s.take(i);
    assert forall|a: A| longer.to_set().contains(a) <==> shorter.to_set().insert(s[i]).contains(
        a,
    ) by {
        if longer.contains(a) {
            let j = choose|j: int| 0 <= j < longer.len() && longer[j] == a;
            if j < i {
                assert(shorter[j] == a);
            }
        }
        if shorter.contains(a) {
            let j = choose|j: int| 0 <= j < shorter.len() && shorter[j] == a;
            assert(longer[j] == a);
        }
        assert(longer[i] == s[i]);
    }
    assert(longer.to_set() =~= shorter.to_set().insert(s[i]));
}

/// A map from unit names to values in which every name occurs once.
///
/// Its view is a `Map` from the name to the value's deep view. `keys` lists
/// the names in the order in which they were first inserted.
pub struct NameTable<V> {
    names: Vec<String>,
    values: Vec<V>,
}

impl<V: DeepView> View for NameTable<V> {
    type V = Map<Seq<char>, V::V>;

    closed spec fn view(&self) -> Map<Seq<char>, V::V> {
        Map::new(
            |n: Seq<char>| self.keys().contains(n),
            |n: Seq<char>| self.values@[self.keys().index_of(n)].deep_view(),
        )
    }
}

impl<V> NameTable<V> {
    #[verifier::type_invariant]
    closed spec fn inv(self) -> bool {
        &&& self.names@.len() == self.values@.len()
        &&& key_list(self.names@).no_duplicates()
    }

    /// The names of the table, each once, oldest first.
    pub closed spec fn keys(&self) -> Seq<Seq<char>> {
        key_list(self.names@)
    }
}

impl<V: DeepView> NameTable<V> {
    /// What the table says of itself: its names are distinct, they are the
    /// domain of the view, and the domain is finite.
    pub open spec fn consistent(&self) -> bool {
        &&& self.keys().no_duplicates()
        &&& self@.dom() == self.keys().to_set()
        &&& self@.dom().finite()
        &&& self@.dom().len() == self.keys().len()
    }

    proof fn lemma_consistent(&self)
        requires
            self.inv(),
        ensures
            self.consistent(),
    {
        let keys = self.keys();
        assert(self@.dom() =~= keys.to_set());
        keys.unique_seq_to_set();
    }

    /// An empty table.
    pub fn new() -> (table: Self)
        ensures
            table@ == Map::<Seq<char>, V::V>::empty(),
            table.keys() == Seq::<Seq<char>>::empty(),
            table.consistent(),
    {
        let table = NameTable { names: Vec::new(), values: Vec::new() };
        proof {
            assert(table.keys() =~= Seq::<Seq<char>>::empty());
            assert(table@ =~= Map::<Seq<char>, V::V>::empty());
            table.lemma_consistent();
        }
        table
    }

    /// The number of names in the table.
    pub fn len(&self) -> (n: usize)
        ensures
            n == self.keys().len(),
            n == self@.dom().len(),
            self.consistent(),
    {
        proof {
            use_type_invariant(self);
            self.lemma_consistent();
        }
        self.names.len()
    }

    /// The position of `name` among the keys, if the table has it.
    pub fn position(&self, name: &String) -> (found: Option<usize>)
        ensures
            self.consistent(),
            match found {
                Some(i) => i < self.keys().len() && self.keys()[i as int] == name@,
                None => !self@.dom().contains(name@),
            },
    {
        proof {
            use_type_invariant(self);
            self.lemma_consistent();
        }
        let mut i: usize = 0;
        while i < self.names.len()
            invariant
                i <= self.names.len(),
                self.consistent(),
                forall|k: int| 0 <= k < i ==> self.keys()[k] != name@,
            decreases self.names.len() - i,
        {
            if self.names[i] == *name {
                return Some(i);
            }
            i += 1;
        }
        None
    }

    /// Whether the table has an entry for `name`.
    pub fn contains_key(&self, name: &String) -> (present: bool)
        ensures
            present == self@.dom().contains(name@),
    {
        self.position(name).is_some()
    }

    /// The value recorded for `name`, if there is one.
    pub fn get(&self, name: &String) -> (found: Option<&V>)
        ensures
            match found {
                Some(value) => self@.dom().contains(name@) && value.deep_view() == self@[name@],
                None => !self@.dom().contains(name@),
            },
    {
        match self.position(name) {
            Some(i) => {
                proof {
                    use_type_invariant(self);
                    lemma_index_of_unique(self.keys(), i as int);
                }
                Some(&self.values[i])
            },
            None => None,
        }
    }

    /// The name at a position of `keys`.
    pub fn name_at(&self, i: usize) -> (name: &String)
        requires
            i < self.keys().len(),
        ensures
            name@ == self.keys()[i as int],
            self@.dom().contains(name@),
    {
        proof {
            use_type_invariant(self);
            lemma_index_of_unique(self.keys(), i as int);
        }
        &self.names[i]
    }

    /// The value recorded for the name at a position of `keys`.
    pub fn value_at(&self, i: usize) -> (value: &V)
        requires
            i < self.keys().len(),
        ensures
            self@.dom().contains(self.keys()[i as int]),
            value.deep_view() == self@[self.keys()[i as int]],
    {
        proof {
            use_type_invariant(self);
            lemma_index_of_unique(self.keys(), i as int);
        }
        &self.values[i]
    }

    /// Records `value` under `name`, in place of an earlier value for the
    /// same name if there was one.
    pub fn insert(&mut self, name: String, value: V)
        ensures
            final(self)@ == old(self)@.insert(name@, value.deep_view()),
            final(self).keys() == if old(self)@.dom().contains(name@) {
                old(self).keys()
            } else {
                old(self).keys().push(name@)
            },
    {
        proof {
            use_type_invariant(&*self);
            self.lemma_consistent();
        }
        let ghost before = *self;
        let found = self.position(&name);
        let mut taken: NameTable<V> = NameTable::new();
        std::mem::swap(self, &mut taken);
        let NameTable { mut names, mut values } = taken;
        match found {
            Some(i) => {
                values.set(i, value);
                *self = NameTable { names, values };
                proof {
                    assert(self.keys() == before.keys());
                    assert forall|n: Seq<char>| self.keys().contains(n) implies #[trigger] self@[n]
                        == before@.insert(name@, value.deep_view())[n] by {
                        lemma_index_of_unique(self.keys(), i as int);
                    }
                    assert(self@ =~= before@.insert(name@, value.deep_view()));
                }
            },
            None => {
                names.push(name);
                values.push(value);
                proof {
                    let keys = key_list(names@);
                    assert(keys =~= before.keys().push(name@));
                    assert(keys.no_duplicates());
                }
                *self = NameTable { names, values };
                proof {
                    let keys = self.keys();
                    lemma_index_of_unique(keys, keys.len() - 1);
                    assert forall|n: Seq<char>| keys.contains(n) <==> (before.keys().contains(n)
                        || n == name@) by {
                        if before.keys().contains(n) {
                            let j = before.keys().index_of(n);
                            assert(keys[j] == n);
                        }
                    }
                    assert forall|n: Seq<char>| keys.contains(n) implies #[trigger] self@[n]
                        == before@.insert(name@, value.deep_view())[n] by {
                        if n != name@ {
                            let j = before.keys().index_of(n);
                            assert(keys[j] == n);
                            lemma_index_of_unique(keys, j);
                        }
                    }
                    assert(self@ =~= before@.insert(name@, value.deep_view()));
                }
            },
        }
    }
}

/// The sites recorded under `name` in a table of site lists: none where the
/// table does not have the name.
pub open spec fn sites_of<A>(lists: Map<Seq<char>, Seq<A>>, name: Seq<char>) -> Seq<A> {
    if lists.dom().contains(name) {
        lists[name]
    } else {
        Seq::empty()
    }
}

impl NameTable<Vec<ModuleInfo>> {
    /// Adds `site` behind the sites already recorded under `name`, or starts
    /// a list of one site where the name is new.
    pub fn append(&mut self, name: String, site: ModuleInfo)
        ensures
            final(self)@ == old(self)@.insert(name@, sites_of(old(self)@, name@).push(site@)),
            final(self).keys() == if old(self)@.dom().contains(name@) {
                old(self).keys()
            } else {
                old(self).keys().push(name@)
            },
    {
        proof {
            use_type_invariant(&*self);
            self.lemma_consistent();
        }
        let ghost before = *self;
        match self.position(&name) {
            Some(i) => {
                let mut taken: NameTable<Vec<ModuleInfo>> = NameTable::new();
                std::mem::swap(self, &mut taken);
                let NameTable { names, mut values } = taken;
                let list = &mut values[i];
                list.push(site);
                *self = NameTable { names, values };
                proof {
                    lemma_index_of_unique(before.keys(), i as int);
                    let grown = sites_of(before@, name@).push(site@);
                    assert(self.values@[i as int].deep_view() =~= grown);
                    assert forall|n: Seq<char>| self.keys().contains(n) implies #[trigger] self@[n]
                        == before@.insert(name@, grown)[n] by {
                        let j = self.keys().index_of(n);
                        assert(self.values@[j] == before.values@[j] || j == i);
                    }
                    assert(self@ =~= before@.insert(name@, grown));
                }
            },
            None => {
                let mut list: Vec<ModuleInfo> = Vec::new();
                list.push(site);
                assert(list.deep_view() =~= sites_of(before@, name@).push(site@));
                self.insert(name, list);
            },
        }
    }
}

} // verus!
