//! Maps from names to values.
use vstd::prelude::*;

use crate::text::same;

verus! {

/// A map keyed by names, kept as a list of entries in the order of insertion.
#[derive(Debug, Clone)]
pub struct NameMap<V> {
    pub entries: Vec<(String, V)>,
}

/// The map that a list of entries stands for; where a name occurs twice, the
/// later entry counts.
pub open spec fn entries_map<V>(entries: Seq<(String, V)>) -> Map<Seq<char>, V>
    decreases entries.len(),
{
    if entries.len() == 0 {
        Map::empty()
    } else {
        entries_map(entries.drop_last()).insert(entries.last().0@, entries.last().1)
    }
}

/// No two entries share a name.
pub open spec fn distinct_names<V>(entries: Seq<(String, V)>) -> bool {
    forall|i: int, j: int|
        0 <= i < j < entries.len() ==> (#[trigger] entries[i]).0@ != (#[trigger] entries[j]).0@
}

/// A name is in the map exactly when some entry carries it, and has the value
/// of that entry.
pub proof fn lemma_entries<V>(entries: Seq<(String, V)>)
    requires
        distinct_names(entries),
    ensures
        forall|i: int|
            0 <= i < entries.len() ==> #[trigger] entries_map(entries).dom().contains(
                entries[i].0@,
            ),
        forall|i: int|
            0 <= i < entries.len() ==> entries_map(entries)[(#[trigger] entries[i]).0@]
                == entries[i].1,
        forall|name: Seq<char>| #[trigger]
            entries_map(entries).dom().contains(name) ==> exists|i: int|
                0 <= i < entries.len() && (#[trigger] entries[i]).0@ == name,
    decreases entries.len(),
{
    if entries.len() > 0 {
        let init = entries.drop_last();
        assert forall|i: int, j: int| 0 <= i < j < init.len() implies (#[trigger] init[i]).0@ != (
        #[trigger] init[j]).0@ by {
            assert(entries[i].0@ != entries[j].0@);
        }
        lemma_entries(init);
        let last = entries.len() - 1;
        assert forall|i: int| 0 <= i < entries.len() implies #[trigger] entries_map(
            entries,
        ).dom().contains(entries[i].0@) && entries_map(entries)[entries[i].0@]
            == entries[i].1 by {
            if i < last {
                assert(init[i] == entries[i]);
                assert(entries_map(init).dom().contains(init[i].0@));
                assert(entries[i].0@ != entries[last].0@);
            }
        }
        assert forall|i: int| 0 <= i < entries.len() implies entries_map(entries)[(
        #[trigger] entries[i]).0@] == entries[i].1 by {
            assert(entries_map(entries).dom().contains(entries[i].0@));
        }
        assert forall|name: Seq<char>| #[trigger]
            entries_map(entries).dom().contains(name) implies exists|i: int|
            0 <= i < entries.len() && (#[trigger] entries[i]).0@ == name by {
            if name == entries[last].0@ {
            } else {
                assert(entries_map(init).dom().contains(name));
                let i = choose|i: int| 0 <= i < init.len() && (#[trigger] init[i]).0@ == name;
                assert(entries[i].0@ == name);
            }
        }
    }
}

/// Replacing the value of one entry replaces the value of its name.
proof fn lemma_replace<V>(entries: Seq<(String, V)>, at: int, entry: (String, V))
    requires
        distinct_names(entries),
        0 <= at < entries.len(),
        entry.0@ == entries[at].0@,
    ensures
        distinct_names(entries.update(at, entry)),
        entries_map(entries.update(at, entry)) == entries_map(entries).insert(entry.0@, entry.1),
{
    let new = entries.update(at, entry);
    assert forall|i: int, j: int| 0 <= i < j < new.len() implies (#[trigger] new[i]).0@ != (
    #[trigger] new[j]).0@ by {
        assert(entries[i].0@ != entries[j].0@);
    }
    lemma_entries(entries);
    lemma_entries(new);
    let a = entries_map(new);
    let b = entries_map(entries).insert(entry.0@, entry.1);
    assert forall|name: Seq<char>| a.dom().contains(name) == #[trigger] b.dom().contains(name) by {
        if a.dom().contains(name) {
            let i = choose|i: int| 0 <= i < new.len() && (#[trigger] new[i]).0@ == name;
            assert(entries_map(entries).dom().contains(entries[i].0@));
        }
        if b.dom().contains(name) {
            if name == entry.0@ {
                assert(a.dom().contains(new[at].0@));
            } else {
                let i = choose|i: int|
                    0 <= i < entries.len() && (#[trigger] entries[i]).0@ == name;
                assert(a.dom().contains(new[i].0@));
            }
        }
    }
    assert forall|name: Seq<char>| a.dom().contains(name) implies #[trigger] a[name] == b[name] by {
        let i = choose|i: int| 0 <= i < new.len() && (#[trigger] new[i]).0@ == name;
        assert(a[new[i].0@] == new[i].1);
        if i != at {
            assert(entries[i].0@ == name);
            assert(entries_map(entries)[entries[i].0@] == entries[i].1);
            if i < at {
                assert(entries[i].0@ != entries[at].0@);
            } else {
                assert(entries[at].0@ != entries[i].0@);
            }
        }
    }
    assert(a =~= b);
}

impl<V> View for NameMap<V> {
    type V = Map<Seq<char>, V>;

    open spec fn view(&self) -> Map<Seq<char>, V> {
        entries_map(self.entries@)
    }
}

impl<V: DeepView> DeepView for NameMap<V> {
    type V = Map<Seq<char>, V::V>;

    open spec fn deep_view(&self) -> Map<Seq<char>, V::V> {
        self@.map_values(|v: V| v.deep_view())
    }
}

impl<V> NameMap<V> {
    /// Every name stands in one entry.
    pub open spec fn wf(self) -> bool {
        distinct_names(self.entries@)
    }

    /// A map without entries.
    pub fn new() -> (r: NameMap<V>)
        ensures
            r.wf(),
            r@ == Map::<Seq<char>, V>::empty(),
            r.entries@.len() == 0,
    {
        NameMap { entries: Vec::new() }
    }

    fn position(&self, name: &str) -> (r: Option<usize>)
        requires
            self.wf(),
        ensures
            match r {
                Some(i) => i < self.entries@.len() && self.entries@[i as int].0@ == name@
                    && self@.dom().contains(name@) && self@[name@] == self.entries@[i as int].1,
                None => !self@.dom().contains(name@) && forall|i: int|
                    0 <= i < self.entries@.len() ==> (#[trigger] self.entries@[i]).0@ != name@,
            },
    {
        proof {
            lemma_entries(self.entries@);
        }
        let mut i: usize = 0;
        while i < self.entries.len()
            invariant
                i <= self.entries@.len(),
                self.wf(),
                forall|j: int| 0 <= j < i ==> (#[trigger] self.entries@[j]).0@ != name@,
            decreases self.entries@.len() - i,
        {
            if same(self.entries[i].0.as_str(), name) {
                proof {
                    lemma_entries(self.entries@);
                    assert(self.entries@[i as int].0@ == name@);
                    assert(self@.dom().contains(self.entries@[i as int].0@));
                }
                return Some(i);
            }
            i = i + 1;
        }
        None
    }

    /// The value bound to `name`.
    pub fn get(&self, name: &str) -> (r: Option<&V>)
        requires
            self.wf(),
        ensures
            match r {
                Some(v) => self@.dom().contains(name@) && *v == self@[name@],
                None => !self@.dom().contains(name@),
            },
    {
        match self.position(name) {
            Some(i) => Some(&self.entries[i].1),
            None => None,
        }
    }

    /// Whether `name` is bound.
    pub fn contains_key(&self, name: &str) -> (r: bool)
        requires
            self.wf(),
        ensures
            r == self@.dom().contains(name@),
    {
        self.position(name).is_some()
    }

    /// Bind `name` to `value`, returning what it was bound to.
    pub fn insert(&mut self, name: String, value: V) -> (r: Option<V>)
        requires
            old(self).wf(),
        ensures
            final(self).wf(),
            final(self)@ == old(self)@.insert(name@, value),
            match r {
                Some(v) => old(self)@.dom().contains(name@) && v == old(self)@[name@],
                None => !old(self)@.dom().contains(name@),
            },
    {
        let ghost before = self.entries@;
        match self.position(name.as_str()) {
            Some(i) => {
                let mut entry = (name, value);
                proof {
                    lemma_replace(before, i as int, entry);
                }
                let mut_entries = &mut self.entries;
                std::mem::swap(&mut mut_entries[i], &mut entry);
                Some(entry.1)
            },
            None => {
                self.entries.push((name, value));
                assert(self.entries@.drop_last() =~= before);
                None
            },
        }
    }

    /// Unbind `name`.
    pub fn remove(&mut self, name: &str) -> (r: Option<V>)
        requires
            old(self).wf(),
        ensures
            final(self).wf(),
            final(self)@ == old(self)@.remove(name@),
            match r {
                Some(v) => old(self)@.dom().contains(name@) && v == old(self)@[name@],
                None => !old(self)@.dom().contains(name@),
            },
    {
        let ghost before = self.entries@;
        match self.position(name) {
            Some(i) => {
                let entry = self.entries.remove(i);
                proof {
                    lemma_remove(before, i as int);
                }
                Some(entry.1)
            },
            None => {
                assert(self@.remove(name@) =~= self@);
                None
            },
        }
    }
}

/// Taking an entry out unbinds its name.
proof fn lemma_remove<V>(entries: Seq<(String, V)>, at: int)
    requires
        distinct_names(entries),
        0 <= at < entries.len(),
    ensures
        distinct_names(entries.remove(at)),
        entries_map(entries.remove(at)) == entries_map(entries).remove(entries[at].0@),
{
    let new = entries.remove(at);
    let gone = entries[at].0@;
    assert forall|i: int| 0 <= i < new.len() implies new[i] == entries[if i < at { i } else { i + 1 }] by {}
    assert forall|i: int, j: int| 0 <= i < j < new.len() implies (#[trigger] new[i]).0@ != (
    #[trigger] new[j]).0@ by {
        let a = if i < at { i } else { i + 1 };
        let b = if j < at { j } else { j + 1 };
        assert(entries[a].0@ != entries[b].0@);
    }
    lemma_entries(entries);
    lemma_entries(new);
    let a = entries_map(new);
    let b = entries_map(entries).remove(gone);
    assert forall|name: Seq<char>| a.dom().contains(name) == #[trigger] b.dom().contains(name) by {
        if a.dom().contains(name) {
            let i = choose|i: int| 0 <= i < new.len() && (#[trigger] new[i]).0@ == name;
            let k = if i < at { i } else { i + 1 };
            assert(entries[k].0@ == name);
            assert(entries_map(entries).dom().contains(entries[k].0@));
            if k < at {
                assert(entries[k].0@ != entries[at].0@);
            } else {
                assert(entries[at].0@ != entries[k].0@);
            }
        }
        if b.dom().contains(name) {
            let k = choose|k: int| 0 <= k < entries.len() && (#[trigger] entries[k]).0@ == name;
            let i = if k < at { k } else { k - 1 };
            assert(new[i] == entries[k]);
            assert(a.dom().contains(new[i].0@));
        }
    }
    assert forall|name: Seq<char>| a.dom().contains(name) implies #[trigger] a[name] == b[name] by {
        let i = choose|i: int| 0 <= i < new.len() && (#[trigger] new[i]).0@ == name;
        let k = if i < at { i } else { i + 1 };
        assert(a[new[i].0@] == new[i].1);
        assert(entries_map(entries)[entries[k].0@] == entries[k].1);
        assert(b.dom().contains(name));
    }
    assert(a =~= b);
}

} // verus!
