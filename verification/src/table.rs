//! Sets of names, and tables that names index.
use crate::text;
use vstd::prelude::*;

verus! {

// ---------------------------------------------------------------------------
// Sets
// ---------------------------------------------------------------------------

/// A set of names. Its view is the set of their characters.
#[derive(Debug)]
pub struct NameSet {
    names: Vec<String>,
}

impl View for NameSet {
    type V = Set<Seq<char>>;

    closed spec fn view(&self) -> Set<Seq<char>> {
        Set::new(|name: Seq<char>| exists|i: int| 0 <= i < self.names@.len() && #[trigger] self.names@[i]@ == name)
    }
}

impl NameSet {
    #[verifier::type_invariant]
    spec fn well_formed(self) -> bool {
        forall|i: int, j: int|
            0 <= i < j < self.names@.len() ==> #[trigger] self.names@[i]@ != #[trigger] self.names@[j]@
    }

    /// The empty set.
    pub fn new() -> (r: NameSet)
        ensures
            r@ == Set::<Seq<char>>::empty(),
    {
        let r = NameSet { names: Vec::new() };
        assert(r@ =~= Set::<Seq<char>>::empty());
        r
    }

    /// The number of names in the set.
    pub fn len(&self) -> (r: usize)
        ensures
            self@.finite(),
            r == self@.len(),
    {
        proof {
            use_type_invariant(self);
            let names = self.names@.map_values(|name: String| name@);
            assert forall|i: int, j: int| 0 <= i < names.len() && 0 <= j < names.len() && i
                != j implies names[i] != names[j] by {
                if i < j {
                    assert(self.names@[i]@ != self.names@[j]@);
                } else {
                    assert(self.names@[j]@ != self.names@[i]@);
                }
            }
            names.unique_seq_to_set();
            vstd::seq_lib::seq_to_set_is_finite(names);
            assert forall|name: Seq<char>| names.to_set().contains(name) <==> self@.contains(
                name,
            ) by {
                if self@.contains(name) {
                    let i = choose|i: int|
                        0 <= i < self.names@.len() && #[trigger] self.names@[i]@ == name;
                    assert(names[i] == name);
                }
                if names.contains(name) {
                    let i = choose|i: int| 0 <= i < names.len() && names[i] == name;
                    assert(self.names@[i]@ == name);
                }
            }
            assert(names.to_set() =~= self@);
        }
        self.names.len()
    }

    /// Tells whether `name` belongs to the set.
    pub fn contains(&self, name: &str) -> (r: bool)
        ensures
            r == self@.contains(name@),
    {
        let mut i: usize = 0;
        while i < self.names.len()
            invariant
                i <= self.names@.len(),
                forall|j: int| 0 <= j < i ==> #[trigger] self.names@[j]@ != name@,
            decreases self.names.len() - i,
        {
            if text::same(self.names[i].as_str(), name) {
                return true;
            }
            i = i + 1;
        }
        false
    }

    /// Adds `name` to the set, and tells whether it was not there before.
    pub fn insert(&mut self, name: String) -> (r: bool)
        ensures
            final(self)@ == old(self)@.insert(name@),
            r == !old(self)@.contains(name@),
    {
        let ghost before = *self;
        if self.contains(name.as_str()) {
            assert(self@.insert(name@) =~= self@);
            false
        } else {
            proof {
                use_type_invariant(&*self);
            }
            let mut names = Vec::new();
            std::mem::swap(&mut names, &mut self.names);
            names.push(name);
            proof {
                assert forall|i: int, j: int| 0 <= i < j < names@.len() implies #[trigger] names@[i]@
                    != #[trigger] names@[j]@ by {
                    assert(names@[i] == before.names@[i]);
                    assert(before@.contains(before.names@[i]@));
                    if j < before.names@.len() {
                        assert(before.names@[i]@ != before.names@[j]@);
                    }
                }
            }
            self.names = names;
            proof {
                assert forall|n: Seq<char>| self@.contains(n) <==> before@.insert(name@).contains(n) by {
                    if before@.contains(n) {
                        let i = choose|i: int| 0 <= i < before.names@.len() && #[trigger] before.names@[i]@ == n;
                        assert(self.names@[i]@ == n);
                    }
                    if n == name@ {
                        assert(self.names@[before.names@.len() as int]@ == n);
                    }
                    if self@.contains(n) {
                        let i = choose|i: int| 0 <= i < self.names@.len() && #[trigger] self.names@[i]@ == n;
                        if i < before.names@.len() {
                            assert(before.names@[i]@ == n);
                        }
                    }
                }
                assert(self@ =~= before@.insert(name@));
            }
            true
        }
    }
}

impl Clone for NameSet {
    fn clone(&self) -> (r: Self)
        ensures
            r@ == self@,
    {
        let mut out = NameSet::new();
        let mut i: usize = 0;
        while i < self.names.len()
            invariant
                i <= self.names@.len(),
                forall|n: Seq<char>| #[trigger] out@.contains(n) <==> exists|j: int|
                    0 <= j < i && #[trigger] self.names@[j]@ == n,
            decreases self.names.len() - i,
        {
            let ghost before = out@;
            out.insert(self.names[i].clone());
            proof {
                assert forall|n: Seq<char>| #[trigger] out@.contains(n) <==> exists|j: int|
                    0 <= j < i + 1 && #[trigger] self.names@[j]@ == n by {
                    if n == self.names@[i as int]@ {
                        assert(out@.contains(n));
                    } else {
                        assert(out@.contains(n) <==> before.contains(n));
                    }
                }
            }
            i = i + 1;
        }
        assert(out@ =~= self@);
        out
    }
}

// ---------------------------------------------------------------------------
// Tables
// ---------------------------------------------------------------------------

/// Values by name. Its view is the map from the characters of a name to its value.
#[derive(Debug)]
#[verifier::reject_recursive_types(V)]
pub struct Table<V> {
    entries: Vec<(String, V)>,
}

/// The map that `entries` stand for: a later entry replaces an earlier one of the same name.
spec fn map_of<V>(entries: Seq<(String, V)>) -> Map<Seq<char>, V>
    decreases entries.len(),
{
    if entries.len() == 0 {
        Map::empty()
    } else {
        map_of(entries.drop_last()).insert(entries.last().0@, entries.last().1)
    }
}

/// Whether no name stands in two entries.
spec fn distinct<V>(entries: Seq<(String, V)>) -> bool {
    forall|i: int, j: int|
        0 <= i < j < entries.len() ==> #[trigger] entries[i].0@ != #[trigger] entries[j].0@
}

/// Where names are distinct, each entry is what the map holds of its name.
proof fn lemma_map_of<V>(entries: Seq<(String, V)>)
    requires
        distinct(entries),
    ensures
        forall|i: int|
            0 <= i < entries.len() ==> map_of(entries).contains_key(#[trigger] entries[i].0@)
                && map_of(entries)[entries[i].0@] == entries[i].1,
        forall|name: Seq<char>| #[trigger]
            map_of(entries).contains_key(name) ==> exists|i: int|
                0 <= i < entries.len() && #[trigger] entries[i].0@ == name,
    decreases entries.len(),
{
    if entries.len() > 0 {
        let rest = entries.drop_last();
        assert forall|i: int, j: int| 0 <= i < j < rest.len() implies #[trigger] rest[i].0@
            != #[trigger] rest[j].0@ by {
            assert(entries[i].0@ != entries[j].0@);
        }
        lemma_map_of(rest);
        assert forall|i: int| 0 <= i < entries.len() implies map_of(entries).contains_key(
            #[trigger] entries[i].0@,
        ) && map_of(entries)[entries[i].0@] == entries[i].1 by {
            if i < rest.len() {
                assert(rest[i] == entries[i]);
                assert(entries[i].0@ != entries[rest.len() as int].0@);
            }
        }
        assert forall|name: Seq<char>| #[trigger]
            map_of(entries).contains_key(name) implies exists|i: int|
            0 <= i < entries.len() && #[trigger] entries[i].0@ == name by {
            if name == entries.last().0@ {
                assert(entries[entries.len() - 1].0@ == name);
            } else {
                assert(map_of(rest).contains_key(name));
                let i = choose|i: int| 0 <= i < rest.len() && #[trigger] rest[i].0@ == name;
                assert(rest[i] == entries[i]);
                assert(entries[i].0@ == name);
            }
        }
    }
}

impl<V> View for Table<V> {
    type V = Map<Seq<char>, V>;

    closed spec fn view(&self) -> Map<Seq<char>, V> {
        map_of(self.entries@)
    }
}

impl<V> Table<V> {
    #[verifier::type_invariant]
    spec fn well_formed(self) -> bool {
        distinct(self.entries@)
    }

    /// The empty table.
    pub fn new() -> (r: Table<V>)
        ensures
            r@ == Map::<Seq<char>, V>::empty(),
    {
        Table { entries: Vec::new() }
    }

    /// The place of the entry of `name`, or the number of entries where there is none.
    fn find(&self, name: &str) -> (r: usize)
        ensures
            r <= self.entries@.len(),
            r < self.entries@.len() ==> self.entries@[r as int].0@ == name@,
            r == self.entries@.len() ==> forall|j: int|
                0 <= j < r ==> #[trigger] self.entries@[j].0@ != name@,
            r < self.entries@.len() <==> self@.contains_key(name@),
    {
        proof {
            use_type_invariant(self);
            lemma_map_of(self.entries@);
        }
        let mut i: usize = 0;
        while i < self.entries.len()
            invariant
                i <= self.entries@.len(),
                forall|j: int| 0 <= j < i ==> #[trigger] self.entries@[j].0@ != name@,
                forall|j: int|
                    0 <= j < self.entries@.len() ==> self@.contains_key(
                        #[trigger] self.entries@[j].0@,
                    ),
                forall|n: Seq<char>| #[trigger]
                    self@.contains_key(n) ==> exists|j: int|
                        0 <= j < self.entries@.len() && #[trigger] self.entries@[j].0@ == n,
            decreases self.entries.len() - i,
        {
            if text::same(self.entries[i].0.as_str(), name) {
                return i;
            }
            i = i + 1;
        }
        i
    }

    /// Tells whether the table has an entry of `name`.
    pub fn contains_key(&self, name: &str) -> (r: bool)
        ensures
            r == self@.contains_key(name@),
    {
        self.find(name) < self.entries.len()
    }

    /// The value of `name`, if it has one.
    pub fn get(&self, name: &str) -> (r: Option<&V>)
        ensures
            match r {
                Some(value) => self@.contains_key(name@) && *value == self@[name@],
                None => !self@.contains_key(name@),
            },
    {
        let at = self.find(name);
        if at < self.entries.len() {
            proof {
                use_type_invariant(self);
                lemma_map_of(self.entries@);
            }
            Some(&self.entries[at].1)
        } else {
            None
        }
    }

    /// Removes the entry of `name` and gives its value, if there is one.
    pub fn remove(&mut self, name: &str) -> (r: Option<V>)
        ensures
            final(self)@ == old(self)@.remove(name@),
            match r {
                Some(value) => old(self)@.contains_key(name@) && value == old(self)@[name@],
                None => !old(self)@.contains_key(name@),
            },
    {
        let ghost before = self.entries@;
        let at = self.find(name);
        if at < self.entries.len() {
            proof {
                use_type_invariant(&*self);
                lemma_map_of(before);
            }
            let mut entries = Vec::new();
            std::mem::swap(&mut entries, &mut self.entries);
            let (key, value) = entries.remove(at);
            proof {
                let after = entries@;
                assert forall|i: int, j: int| 0 <= i < j < after.len() implies #[trigger] after[i].0@
                    != #[trigger] after[j].0@ by {
                    let i0 = if i < at { i } else { i + 1 };
                    let j0 = if j < at { j } else { j + 1 };
                    assert(after[i] == before[i0]);
                    assert(after[j] == before[j0]);
                    assert(before[i0].0@ != before[j0].0@);
                }
                lemma_map_of(after);
                assert forall|n: Seq<char>| #[trigger]
                    map_of(after).contains_key(n) <==> map_of(before).remove(name@).contains_key(
                    n,
                ) by {
                    if map_of(after).contains_key(n) {
                        let i = choose|i: int| 0 <= i < after.len() && #[trigger] after[i].0@ == n;
                        let i0 = if i < at { i } else { i + 1 };
                        assert(after[i] == before[i0]);
                        assert(before[i0].0@ == n);
                        if i0 < at {
                            assert(before[i0].0@ != before[at as int].0@);
                        } else {
                            assert(before[at as int].0@ != before[i0].0@);
                        }
                    }
                    if map_of(before).remove(name@).contains_key(n) {
                        let i0 = choose|i: int|
                            0 <= i < before.len() && #[trigger] before[i].0@ == n;
                        let i = if i0 < at { i0 } else { i0 - 1 };
                        assert(after[i] == before[i0]);
                        assert(after[i].0@ == n);
                    }
                }
                assert forall|n: Seq<char>| #[trigger]
                    map_of(after).contains_key(n) implies map_of(after)[n] == map_of(before).remove(
                    name@,
                )[n] by {
                    let i = choose|i: int| 0 <= i < after.len() && #[trigger] after[i].0@ == n;
                    let i0 = if i < at { i } else { i + 1 };
                    assert(after[i] == before[i0]);
                    assert(before[i0].0@ == n);
                }
                assert(map_of(after) =~= map_of(before).remove(name@));
            }
            self.entries = entries;
            Some(value)
        } else {
            assert(self@.remove(name@) =~= self@);
            None
        }
    }

    /// Makes `value` the value of `name`.
    pub fn insert(&mut self, name: String, value: V)
        ensures
            final(self)@ == old(self)@.insert(name@, value),
    {
        let ghost whole = self@;
        let old_value = self.remove(name.as_str());
        let ghost before = self.entries@;
        proof {
            use_type_invariant(&*self);
            lemma_map_of(before);
        }
        let mut entries = Vec::new();
        std::mem::swap(&mut entries, &mut self.entries);
        entries.push((name, value));
        proof {
            let after = entries@;
            assert(!map_of(before).contains_key(name@));
            assert forall|i: int, j: int| 0 <= i < j < after.len() implies #[trigger] after[i].0@
                != #[trigger] after[j].0@ by {
                if j == after.len() - 1 {
                    assert(after[i] == before[i]);
                    assert(map_of(before).contains_key(before[i].0@));
                } else {
                    assert(before[i].0@ != before[j].0@);
                }
            }
            assert(after.drop_last() =~= before);
            assert(map_of(after) =~= whole.insert(name@, value));
        }
        self.entries = entries;
    }
}

} // verus!
