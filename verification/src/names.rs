//! Collections keyed by name and kept in name order.

use vstd::prelude::*;
use crate::text::{compare, lemma_lex_irreflexive, lemma_lex_transitive, lex_less, Sign};

verus! {

/// Every earlier name comes strictly before every later one.
pub open spec fn increasing(names: Seq<Seq<char>>) -> bool {
    forall|i: int, j: int| 0 <= i < j < names.len() ==> lex_less(#[trigger] names[i], #[trigger] names[j])
}

/// In an increasing listing a name stands at one place only.
pub proof fn lemma_increasing_distinct(names: Seq<Seq<char>>, i: int, j: int)
    requires
        increasing(names),
        0 <= i < names.len(),
        0 <= j < names.len(),
        names[i] == names[j],
    ensures
        i == j,
{
    lemma_lex_irreflexive(names[i]);
}

/// A map from names to values that lists its entries in name order.
#[derive(Debug)]
pub struct NameMap<V> {
    entries: Vec<(String, V)>,
}

impl<V> View for NameMap<V> {
    type V = Map<Seq<char>, V>;

    closed spec fn view(&self) -> Map<Seq<char>, V> {
        Map::new(
            |k: Seq<char>| self.names().contains(k),
            |k: Seq<char>| self.items()[self.names().index_of(k)],
        )
    }
}

impl<V> NameMap<V> {
    /// The names of the entries, in the order they are listed.
    pub closed spec fn names(&self) -> Seq<Seq<char>> {
        self.entries@.map_values(|e: (String, V)| e.0@)
    }

    /// The values of the entries, in the order they are listed.
    pub closed spec fn items(&self) -> Seq<V> {
        self.entries@.map_values(|e: (String, V)| e.1)
    }

    /// The listing is in strictly increasing name order.
    pub closed spec fn wf(&self) -> bool {
        increasing(self.names())
    }

    #[verifier::type_invariant]
    spec fn inv(&self) -> bool {
        self.wf()
    }

    /// How the listing and the map view describe the same entries.
    pub proof fn lemma_listing(&self)
        requires
            self.wf(),
        ensures
            self.names().len() == self.items().len(),
            increasing(self.names()),
            self@.dom().finite(),
            self@.dom().len() == self.names().len(),
            forall|k: Seq<char>| self@.dom().contains(k) <==> self.names().contains(k),
            forall|i: int|
                0 <= i < self.names().len() ==> self@.dom().contains(#[trigger] self.names()[i])
                    && self@[self.names()[i]] == self.items()[i],
    {
        let names = self.names();
        assert forall|i: int| 0 <= i < names.len() implies self@.dom().contains(#[trigger] names[i])
            && self@[names[i]] == self.items()[i] by {
            assert(names.contains(names[i]));
            let j = names.index_of(names[i]);
            lemma_increasing_distinct(names, i, j);
        }
        assert forall|i: int, j: int| 0 <= i < j < names.len() implies names[i] != names[j] by {
            if names[i] == names[j] {
                lemma_increasing_distinct(names, i, j);
            }
        }
        assert(names.no_duplicates());
        names.unique_seq_to_set();
        assert(self@.dom() =~= names.to_set());
    }

    /// An empty map.
    pub fn new() -> (r: Self)
        ensures
            r@ == Map::<Seq<char>, V>::empty(),
            r.names() == Seq::<Seq<char>>::empty(),
            r.items() == Seq::<V>::empty(),
            r.wf(),
    {
        let r = NameMap { entries: Vec::new() };
        assert(r.names() =~= Seq::<Seq<char>>::empty());
        assert(r.items() =~= Seq::<V>::empty());
        assert(r@ =~= Map::<Seq<char>, V>::empty());
        r
    }

    /// Makes the listing invariant known to the caller.
    pub fn well_formed(&self)
        ensures
            self.wf(),
    {
        proof {
            use_type_invariant(self);
        }
    }

    /// The number of entries.
    pub fn len(&self) -> (n: usize)
        ensures
            n == self.names().len(),
            n == self.items().len(),
            n == self@.dom().len(),
    {
        proof {
            use_type_invariant(self);
            self.lemma_listing();
        }
        self.entries.len()
    }

    /// The name of the entry at place `i` of the listing.
    pub fn name_at(&self, i: usize) -> (r: &String)
        requires
            i < self.names().len(),
        ensures
            r@ == self.names()[i as int],
    {
        &self.entries[i].0
    }

    /// The value of the entry at place `i` of the listing.
    pub fn item_at(&self, i: usize) -> (r: &V)
        requires
            i < self.items().len(),
        ensures
            *r == self.items()[i as int],
    {
        &self.entries[i].1
    }

    /// The first place whose name does not come before `name`, and whether
    /// the name found there is `name` itself.
    fn place(&self, name: &str) -> (r: (usize, bool))
        ensures
            r.0 <= self.names().len(),
            forall|j: int| 0 <= j < r.0 ==> lex_less(#[trigger] self.names()[j], name@),
            r.1 ==> r.0 < self.names().len() && self.names()[r.0 as int] == name@,
            !r.1 ==> forall|j: int|
                r.0 <= j < self.names().len() ==> lex_less(name@, #[trigger] self.names()[j]),
            r.1 == self.names().contains(name@),
    {
        proof {
            use_type_invariant(self);
        }
        let mut i: usize = 0;
        while i < self.entries.len()
            invariant
                i <= self.entries.len(),
                self.wf(),
                forall|j: int| 0 <= j < i ==> lex_less(#[trigger] self.names()[j], name@),
            decreases self.entries.len() - i,
        {
            let sign = compare(self.entries[i].0.as_str(), name);
            assert(self.names()[i as int] == self.entries[i as int].0@);
            match sign {
                Sign::Less => {
                    i = i + 1;
                },
                Sign::Equal => {
                    return (i, true);
                },
                Sign::Greater => {
                    proof {
                        let names = self.names();
                        assert forall|j: int| i <= j < names.len() implies lex_less(
                            name@,
                            #[trigger] names[j],
                        ) by {
                            if j > i {
                                lemma_lex_transitive(name@, names[i as int], names[j]);
                            }
                        }
                        assert forall|j: int| 0 <= j < names.len() implies names[j] != name@ by {
                            lemma_lex_irreflexive(name@);
                        }
                    }
                    return (i, false);
                },
            }
        }
        proof {
            let names = self.names();
            assert forall|j: int| 0 <= j < names.len() implies names[j] != name@ by {
                lemma_lex_irreflexive(name@);
            }
        }
        (i, false)
    }

    /// Whether an entry is listed under `name`.
    pub fn contains_key(&self, name: &str) -> (r: bool)
        ensures
            r == self@.dom().contains(name@),
    {
        let (_, found) = self.place(name);
        found
    }

    /// The value listed under `name`, if there is one.
    pub fn get(&self, name: &str) -> (r: Option<&V>)
        ensures
            r is Some <==> self@.dom().contains(name@),
            r matches Some(v) ==> *v == self@[name@],
    {
        let (i, found) = self.place(name);
        proof {
            use_type_invariant(self);
            self.lemma_listing();
        }
        if found {
            Some(&self.entries[i].1)
        } else {
            None
        }
    }

    /// Lists `value` under `name`, replacing and returning what was listed
    /// there before.
    pub fn insert(&mut self, name: String, value: V) -> (r: Option<V>)
        ensures
            final(self)@ == old(self)@.insert(name@, value),
            final(self).wf(),
            r is Some <==> old(self)@.dom().contains(name@),
            r matches Some(v) ==> v == old(self)@[name@],
    {
        let (i, found) = self.place(name.as_str());
        proof {
            use_type_invariant(&*self);
            self.lemma_listing();
        }
        let ghost before = *self;
        let mut entries: Vec<(String, V)> = Vec::new();
        std::mem::swap(&mut entries, &mut self.entries);
        let mut r: Option<V> = None;
        if found {
            let gone = entries.remove(i);
            r = Some(gone.1);
        }
        entries.insert(i, (name, value));
        let ghost after = NameMap { entries };
        proof {
            let old_names = before.names();
            let new_names = after.names();
            assert forall|a: int, b: int| 0 <= a < b < new_names.len() implies lex_less(
                #[trigger] new_names[a],
                #[trigger] new_names[b],
            ) by {
                let oa = if a < i { a } else if found { a } else { a - 1 };
                let ob = if b < i { b } else if found { b } else { b - 1 };
                if a != i && b != i {
                    assert(new_names[a] == old_names[oa]);
                    assert(new_names[b] == old_names[ob]);
                } else if a == i {
                    assert(new_names[b] == old_names[ob]);
                    if found {
                        assert(lex_less(old_names[i as int], old_names[ob]));
                    }
                } else {
                    assert(new_names[a] == old_names[oa]);
                }
            }
            assert(after.wf());
            after.lemma_listing();
            assert(new_names[i as int] == name@);
            assert forall|k: Seq<char>| after@.dom().contains(k) <==> (k == name@
                || before@.dom().contains(k)) by {
                if new_names.contains(k) {
                    let a = new_names.index_of(k);
                    if a != i {
                        let oa = if a < i { a } else if found { a } else { a - 1 };
                        assert(old_names[oa] == k);
                    }
                }
                if old_names.contains(k) && k != name@ {
                    let oa = old_names.index_of(k);
                    let a = if oa < i { oa } else if found { oa } else { oa + 1 };
                    assert(new_names[a] == k);
                }
            }
            assert forall|k: Seq<char>| after@.dom().contains(k) implies after@[k] == before@.insert(
                name@,
                value,
            )[k] by {
                let a = new_names.index_of(k);
                assert(after@[new_names[a]] == after.items()[a]);
                if a != i {
                    let oa = if a < i { a } else if found { a } else { a - 1 };
                    assert(old_names[oa] == k);
                    assert(before@[old_names[oa]] == before.items()[oa]);
                    if k == name@ {
                        lemma_increasing_distinct(new_names, a, i as int);
                    }
                }
            }
            assert(after@ =~= before@.insert(name@, value));
        }
        self.entries = entries;
        r
    }

    /// Takes the entry listed under `name` out of the map and returns its
    /// value.
    pub fn remove(&mut self, name: &str) -> (r: Option<V>)
        ensures
            final(self)@ == old(self)@.remove(name@),
            final(self).wf(),
            r is Some <==> old(self)@.dom().contains(name@),
            r matches Some(v) ==> v == old(self)@[name@],
    {
        let (i, found) = self.place(name);
        proof {
            use_type_invariant(&*self);
            self.lemma_listing();
        }
        if !found {
            assert(self@ =~= self@.remove(name@));
            return None;
        }
        let ghost before = *self;
        let mut entries: Vec<(String, V)> = Vec::new();
        std::mem::swap(&mut entries, &mut self.entries);
        let gone = entries.remove(i);
        let ghost after = NameMap { entries };
        proof {
            let old_names = before.names();
            let new_names = after.names();
            assert forall|a: int, b: int| 0 <= a < b < new_names.len() implies lex_less(
                #[trigger] new_names[a],
                #[trigger] new_names[b],
            ) by {
                let oa = if a < i { a } else { a + 1 };
                let ob = if b < i { b } else { b + 1 };
                assert(new_names[a] == old_names[oa]);
                assert(new_names[b] == old_names[ob]);
            }
            assert(after.wf());
            after.lemma_listing();
            assert forall|k: Seq<char>| after@.dom().contains(k) <==> (k != name@
                && before@.dom().contains(k)) by {
                if new_names.contains(k) {
                    let a = new_names.index_of(k);
                    let oa = if a < i { a } else { a + 1 };
                    assert(old_names[oa] == k);
                    if k == name@ {
                        lemma_increasing_distinct(old_names, oa, i as int);
                    }
                }
                if old_names.contains(k) && k != name@ {
                    let oa = old_names.index_of(k);
                    let a = if oa < i { oa } else { oa - 1 };
                    assert(new_names[a] == k);
                }
            }
            assert forall|k: Seq<char>| after@.dom().contains(k) implies after@[k] == before@[k] by {
                let a = new_names.index_of(k);
                let oa = if a < i { a } else { a + 1 };
                assert(after@[new_names[a]] == after.items()[a]);
                assert(old_names[oa] == k);
                assert(before@[old_names[oa]] == before.items()[oa]);
            }
            assert(after@ =~= before@.remove(name@));
        }
        self.entries = entries;
        Some(gone.1)
    }
}

/// A set of names that lists its members in name order.
#[derive(Debug)]
pub struct NameSet {
    members: NameMap<()>,
}

impl View for NameSet {
    type V = Set<Seq<char>>;

    closed spec fn view(&self) -> Set<Seq<char>> {
        self.members@.dom()
    }
}

impl NameSet {
    /// The members, in the order they are listed.
    pub closed spec fn names(&self) -> Seq<Seq<char>> {
        self.members.names()
    }

    /// The listing is in strictly increasing name order.
    pub closed spec fn wf(&self) -> bool {
        self.members.wf()
    }

    /// How the listing and the set view describe the same members.
    pub proof fn lemma_listing(&self)
        requires
            self.wf(),
        ensures
            increasing(self.names()),
            self@.finite(),
            self@.len() == self.names().len(),
            forall|k: Seq<char>| self@.contains(k) <==> self.names().contains(k),
    {
        self.members.lemma_listing();
    }

    /// An empty set.
    pub fn new() -> (r: Self)
        ensures
            r@ == Set::<Seq<char>>::empty(),
            r.wf(),
    {
        let r = NameSet { members: NameMap::new() };
        assert(r@ =~= Set::<Seq<char>>::empty());
        r
    }

    /// Makes the listing invariant known to the caller.
    pub fn well_formed(&self)
        ensures
            self.wf(),
    {
        self.members.well_formed();
    }

    /// The number of members.
    pub fn len(&self) -> (n: usize)
        ensures
            n == self.names().len(),
            n == self@.len(),
    {
        self.members.len()
    }

    /// The member at place `i` of the listing.
    pub fn name_at(&self, i: usize) -> (r: &String)
        requires
            i < self.names().len(),
        ensures
            r@ == self.names()[i as int],
    {
        self.members.name_at(i)
    }

    /// Whether `name` is a member.
    pub fn contains(&self, name: &str) -> (r: bool)
        ensures
            r == self@.contains(name@),
    {
        self.members.contains_key(name)
    }

    /// Adds `name`; returns whether it was new.
    pub fn insert(&mut self, name: String) -> (r: bool)
        ensures
            final(self)@ == old(self)@.insert(name@),
            final(self).wf(),
            r == !old(self)@.contains(name@),
    {
        let before = self.members.insert(name, ());
        assert(self.members@.dom() =~= old(self).members@.dom().insert(name@));
        before.is_none()
    }
}

} // verus!
