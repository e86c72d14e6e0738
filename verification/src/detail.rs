//! The named values that a step of a command carries.

use vstd::prelude::*;

use crate::text;

verus! {

/// A map from names to values.
pub struct Detail {
    entries: Vec<(String, String)>,
}

/// Whether the entry at index `i` is for the given name.
pub open spec fn has_entry(entries: Seq<(String, String)>, name: Seq<char>, i: int) -> bool {
    0 <= i < entries.len() && entries[i].0@ == name
}

impl View for Detail {
    type V = Map<Seq<char>, Seq<char>>;

    closed spec fn view(&self) -> Map<Seq<char>, Seq<char>> {
        Map::new(
            |name: Seq<char>| exists|i: int| has_entry(self.entries@, name, i),
            |name: Seq<char>|
                self.entries@[choose|i: int| has_entry(self.entries@, name, i)].1@,
        )
    }
}

impl DeepView for Detail {
    type V = Map<Seq<char>, Seq<char>>;

    open spec fn deep_view(&self) -> Map<Seq<char>, Seq<char>> {
        self@
    }
}

impl Detail {
    /// Every name stands for one value only.
    pub closed spec fn wf(self) -> bool {
        forall|i: int, j: int|
            0 <= i < j < self.entries@.len() ==> (#[trigger] self.entries@[i]).0@ != (
            #[trigger] self.entries@[j]).0@
    }

    /// The empty map.
    pub fn new() -> (r: Detail)
        ensures
            r.wf(),
            r@ == Map::<Seq<char>, Seq<char>>::empty(),
    {
        let r = Detail { entries: Vec::new() };
        assert(r@ =~= Map::empty());
        r
    }

    /// Whether the map holds nothing.
    pub fn is_empty(&self) -> (r: bool)
        ensures
            r == (self@ == Map::<Seq<char>, Seq<char>>::empty()),
    {
        proof {
            if self.entries@.len() > 0 {
                let name = self.entries@[0].0@;
                assert(has_entry(self.entries@, name, 0));
                assert(self@.contains_key(name));
            } else {
                assert(self@ =~= Map::empty());
            }
        }
        self.entries.len() == 0
    }

    /// What the map holds, as pairs of a name and its value.
    pub fn entries(&self) -> (r: &Vec<(String, String)>)
        requires
            self.wf(),
        ensures
            forall|name: Seq<char>| #[trigger]
                self@.contains_key(name) <==> exists|i: int| has_entry(r@, name, i),
            forall|i: int|
                0 <= i < r@.len() ==> self@[(#[trigger] r@[i]).0@] == r@[i].1@,
            forall|i: int, j: int|
                0 <= i < j < r@.len() ==> (#[trigger] r@[i]).0@ != (#[trigger] r@[j]).0@,
    {
        proof {
            assert forall|i: int| 0 <= i < self.entries@.len() implies self@[(
            #[trigger] self.entries@[i]).0@] == self.entries@[i].1@ by {
                self.entry_value(self.entries@[i].0@, i);
            }
        }
        &self.entries
    }

    /// Sets the value for a name, in place of the one that it had.
    pub fn insert(&mut self, name: String, value: String)
        requires
            old(self).wf(),
        ensures
            final(self).wf(),
            final(self)@ == old(self)@.insert(name@, value@),
    {
        let ghost before = *self;
        let mut i: usize = 0;
        while i < self.entries.len()
            invariant
                i <= self.entries@.len(),
                *self == before,
                before == *old(self),
                before.wf(),
                forall|j: int| 0 <= j < i ==> !has_entry(before.entries@, name@, j),
            decreases self.entries@.len() - i,
        {
            if text::same_text(self.entries[i].0.as_str(), name.as_str()) {
                self.entries[i] = (name, value);
                proof {
                    self.is_insert(before, name@, value@, i as int);
                }
                return ;
            }
            i += 1;
        }
        self.entries.push((name, value));
        proof {
            self.is_insert(before, name@, value@, i as int);
        }
    }

    /// The value for a name is the one that its entry holds.
    proof fn entry_value(self, name: Seq<char>, i: int)
        requires
            self.wf(),
            has_entry(self.entries@, name, i),
        ensures
            self@.contains_key(name),
            self@[name] == self.entries@[i].1@,
    {
        let j = choose|j: int| has_entry(self.entries@, name, j);
        assert(i == j) by {
            if i < j {
                assert(self.entries@[i].0@ != self.entries@[j].0@);
            } else if j < i {
                assert(self.entries@[j].0@ != self.entries@[i].0@);
            }
        }
    }

    /// One changed entry, whose name no other entry has, is one value set.
    proof fn is_insert(self, before: Detail, name: Seq<char>, value: Seq<char>, i: int)
        requires
            before.wf(),
            has_entry(self.entries@, name, i),
            self.entries@[i].1@ == value,
            i <= before.entries@.len(),
            self.entries@.len() == if i < before.entries@.len() {
                before.entries@.len()
            } else {
                before.entries@.len() + 1
            },
            i < before.entries@.len() ==> before.entries@[i].0@ == name,
            forall|j: int| 0 <= j < i ==> !has_entry(before.entries@, name, j),
            forall|j: int|
                0 <= j < before.entries@.len() && j != i ==> #[trigger] self.entries@[j]
                    == before.entries@[j],
        ensures
            self.wf(),
            self@ == before@.insert(name, value),
    {
        assert forall|j: int, k: int| 0 <= j < k < self.entries@.len() implies (
        #[trigger] self.entries@[j]).0@ != (#[trigger] self.entries@[k]).0@ by {
            if j != i && k != i {
                assert(before.entries@[j].0@ != before.entries@[k].0@);
            } else if k == i {
                assert(!has_entry(before.entries@, name, j));
            } else {
                assert(before.entries@[j].0@ != before.entries@[k].0@);
            }
        }
        self.entry_value(name, i);
        assert forall|key: Seq<char>| #[trigger]
            self@.contains_key(key) == before@.insert(name, value).contains_key(key) by {
            if key != name {
                if self@.contains_key(key) {
                    let j = choose|j: int| has_entry(self.entries@, key, j);
                    assert(has_entry(before.entries@, key, j));
                }
                if before@.contains_key(key) {
                    let j = choose|j: int| has_entry(before.entries@, key, j);
                    assert(has_entry(self.entries@, key, j));
                }
            }
        }
        assert forall|key: Seq<char>| #[trigger] self@.contains_key(key) implies self@[key]
            == before@.insert(name, value)[key] by {
            if key != name {
                let j = choose|j: int| has_entry(self.entries@, key, j);
                assert(has_entry(before.entries@, key, j));
                self.entry_value(key, j);
                before.entry_value(key, j);
            }
        }
        assert(self@ =~= before@.insert(name, value));
    }
}

} // verus!
