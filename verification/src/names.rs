//! Maps keyed by text.
use vstd::prelude::*;

verus! {

/// A map from names to values that remembers the order in which the names came in.
///
/// No name occurs twice. Writing to a name that is present replaces its value and keeps its
/// place.
#[derive(Debug)]
#[verifier::reject_recursive_types(V)]
pub struct NameMap<V> {
    entries: Vec<(String, V)>,
}

impl<V> View for NameMap<V> {
    type V = Map<Seq<char>, V>;

    closed spec fn view(&self) -> Map<Seq<char>, V> {
        entries_map(self.entries@)
    }
}

/// `name` is the name of one of the entries.
spec fn listed<V>(entries: Seq<(String, V)>, name: Seq<char>) -> bool {
    exists|i: int| 0 <= i < entries.len() && #[trigger] entries[i].0@ == name
}

/// Where `name` stands among the entries.
spec fn place<V>(entries: Seq<(String, V)>, name: Seq<char>) -> int {
    choose|i: int| 0 <= i < entries.len() && #[trigger] entries[i].0@ == name
}

spec fn entries_map<V>(entries: Seq<(String, V)>) -> Map<Seq<char>, V> {
    Map::new(
        |name: Seq<char>| listed(entries, name),
        |name: Seq<char>| entries[place(entries, name)].1,
    )
}

spec fn distinct<V>(entries: Seq<(String, V)>) -> bool {
    forall|i: int, j: int|
        0 <= i < j < entries.len() ==> #[trigger] entries[i].0@ != #[trigger] entries[j].0@
}

/// Every entry is what the map holds under its name.
proof fn entry_is_mapped<V>(entries: Seq<(String, V)>, i: int)
    requires
        distinct(entries),
        0 <= i < entries.len(),
    ensures
        entries_map(entries).contains_key(entries[i].0@),
        entries_map(entries)[entries[i].0@] == entries[i].1,
{
    assert(entries[i].0@ == entries[i].0@);
    assert(listed(entries, entries[i].0@));
    let p = place(entries, entries[i].0@);
    assert(entries[p].0@ == entries[i].0@);
    assert(p == i);
}

proof fn pushed_entry<V>(entries: Seq<(String, V)>, name: String, value: V)
    requires
        distinct(entries),
        !listed(entries, name@),
    ensures
        distinct(entries.push((name, value))),
        entries_map(entries.push((name, value))) == entries_map(entries).insert(name@, value),
{
    let longer = entries.push((name, value));
    assert forall|i: int, j: int| 0 <= i < j < longer.len() implies #[trigger] longer[i].0@
        != #[trigger] longer[j].0@ by {
        assert(longer[i] == entries[i]);
        if j < entries.len() {
            assert(longer[j] == entries[j]);
        }
    }
    entry_is_mapped(longer, entries.len() as int);
    assert forall|k: Seq<char>| #[trigger] listed(longer, k) == (listed(entries, k) || k == name@) by {
        if listed(entries, k) {
            assert(longer[place(entries, k)].0@ == k);
        }
        if k == name@ {
            assert(longer[entries.len() as int].0@ == k);
        }
        if listed(longer, k) {
            let p = place(longer, k);
            if p < entries.len() {
                assert(entries[p].0@ == k);
            }
        }
    }
    assert forall|k: Seq<char>| #[trigger] listed(entries, k) implies entries_map(longer)[k]
        == entries_map(entries)[k] by {
        let p = place(entries, k);
        assert(longer[p] == entries[p]);
        entry_is_mapped(longer, p);
        entry_is_mapped(entries, p);
    }
    assert(entries_map(longer) =~= entries_map(entries).insert(name@, value));
}

proof fn updated_entry<V>(entries: Seq<(String, V)>, i: int, value: V)
    requires
        distinct(entries),
        0 <= i < entries.len(),
    ensures
        distinct(entries.update(i, (entries[i].0, value))),
        entries_map(entries.update(i, (entries[i].0, value))) == entries_map(entries).insert(
            entries[i].0@,
            value,
        ),
{
    let changed = entries.update(i, (entries[i].0, value));
    assert forall|j: int| 0 <= j < entries.len() implies #[trigger] changed[j].0@
        == entries[j].0@ by {}
    assert forall|k: Seq<char>| #[trigger] listed(changed, k) == listed(entries, k) by {
        if listed(entries, k) {
            assert(changed[place(entries, k)].0@ == k);
        }
        if listed(changed, k) {
            assert(entries[place(changed, k)].0@ == k);
        }
    }
    entry_is_mapped(changed, i);
    entry_is_mapped(entries, i);
    assert forall|k: Seq<char>| #[trigger] listed(entries, k) && k != entries[i].0@ implies
        entries_map(changed)[k] == entries_map(entries)[k] by {
        let p = place(entries, k);
        assert(changed[p] == entries[p]);
        entry_is_mapped(changed, p);
        entry_is_mapped(entries, p);
    }
    assert(entries_map(changed) =~= entries_map(entries).insert(entries[i].0@, value));
}

proof fn removed_entry<V>(entries: Seq<(String, V)>, i: int)
    requires
        distinct(entries),
        0 <= i < entries.len(),
    ensures
        distinct(entries.remove(i)),
        entries_map(entries.remove(i)) == entries_map(entries).remove(entries[i].0@),
{
    let shorter = entries.remove(i);
    assert forall|j: int| 0 <= j < shorter.len() implies #[trigger] shorter[j] == entries[if j < i {
        j
    } else {
        j + 1
    }] by {}
    assert forall|k: Seq<char>| #[trigger] listed(shorter, k) == (listed(entries, k) && k
        != entries[i].0@) by {
        if listed(entries, k) && k != entries[i].0@ {
            let p = place(entries, k);
            let q = if p < i { p } else { p - 1 };
            assert(shorter[q].0@ == k);
        }
        if listed(shorter, k) {
            let p = place(shorter, k);
            let q = if p < i { p } else { p + 1 };
            assert(entries[q].0@ == k);
        }
    }
    assert forall|k: Seq<char>| #[trigger] listed(shorter, k) implies entries_map(shorter)[k]
        == entries_map(entries)[k] by {
        let p = place(shorter, k);
        let q = if p < i { p } else { p + 1 };
        entry_is_mapped(shorter, p);
        entry_is_mapped(entries, q);
    }
    assert(entries_map(shorter) =~= entries_map(entries).remove(entries[i].0@));
}

impl<V> NameMap<V> {
    #[verifier::type_invariant]
    spec fn wf(&self) -> bool {
        distinct(self.entries@)
    }

    /// The names, in the order in which they came in.
    pub closed spec fn order(&self) -> Seq<Seq<char>> {
        Seq::new(self.entries@.len(), |i: int| self.entries@[i].0@)
    }

    /// The order lists the names that the map has, each of them once. This holds of every map.
    pub open spec fn valid(&self) -> bool {
        &&& self.order().no_duplicates()
        &&& forall|name: Seq<char>|
            self@.contains_key(name) <==> #[trigger] self.order().contains(name)
    }

    pub fn new() -> (map: Self)
        ensures
            map@ == Map::<Seq<char>, V>::empty(),
            map.order() == Seq::<Seq<char>>::empty(),
    {
        let map = NameMap { entries: Vec::new() };
        assert(map@ =~= Map::<Seq<char>, V>::empty());
        assert(map.order() =~= Seq::<Seq<char>>::empty());
        map
    }

    /// The number of names.
    pub fn len(&self) -> (count: usize)
        ensures
            count == self.order().len(),
            self.valid(),
    {
        proof {
            use_type_invariant(self);
            let entries = self.entries@;
            assert forall|name: Seq<char>|
                self@.contains_key(name) <==> #[trigger] self.order().contains(name) by {
                if self.order().contains(name) {
                    let i = choose|i: int| 0 <= i < self.order().len() && self.order()[i] == name;
                    assert(entries[i].0@ == name);
                }
                if listed(entries, name) {
                    assert(self.order()[place(entries, name)] == name);
                }
            }
        }
        self.entries.len()
    }

    /// The name that came in at place `i`.
    pub fn name_at(&self, i: usize) -> (name: &String)
        requires
            i < self.order().len(),
        ensures
            name@ == self.order()[i as int],
            self@.contains_key(name@),
    {
        proof {
            use_type_invariant(self);
            entry_is_mapped(self.entries@, i as int);
        }
        &self.entries[i].0
    }

    /// The value of the name that came in at place `i`.
    pub fn value_at(&self, i: usize) -> (value: &V)
        requires
            i < self.order().len(),
        ensures
            self@.contains_key(self.order()[i as int]),
            *value == self@[self.order()[i as int]],
    {
        proof {
            use_type_invariant(self);
            entry_is_mapped(self.entries@, i as int);
        }
        &self.entries[i].1
    }

    /// Where `name` stands, or the number of entries if it is not there.
    fn find(&self, name: &str) -> (at: usize)
        ensures
            at <= self.entries@.len(),
            at < self.entries@.len() ==> self.entries@[at as int].0@ == name@,
            at == self.entries@.len() ==> !listed(self.entries@, name@),
    {
        let key = name.to_owned();
        let mut i: usize = 0;
        while i < self.entries.len()
            invariant
                i <= self.entries@.len(),
                key@ == name@,
                forall|j: int| 0 <= j < i ==> #[trigger] self.entries@[j].0@ != name@,
            decreases self.entries@.len() - i,
        {
            if self.entries[i].0 == key {
                return i;
            }
            i += 1;
        }
        i
    }

    pub fn get(&self, name: &str) -> (value: Option<&V>)
        ensures
            match value {
                Some(v) => self@.contains_key(name@) && *v == self@[name@],
                None => !self@.contains_key(name@),
            },
    {
        proof {
            use_type_invariant(self);
        }
        let at = self.find(name);
        if at < self.entries.len() {
            proof {
                entry_is_mapped(self.entries@, at as int);
            }
            Some(&self.entries[at].1)
        } else {
            None
        }
    }

    /// Write `value` under `name`.
    pub fn insert(&mut self, name: String, value: V)
        ensures
            final(self)@ == old(self)@.insert(name@, value),
            final(self).order() == (if old(self)@.contains_key(name@) {
                old(self).order()
            } else {
                old(self).order().push(name@)
            }),
    {
        proof {
            use_type_invariant(&*self);
        }
        let at = self.find(name.as_str());
        let ghost before = self.entries@;
        let ghost order = self.order();
        let mut entries: Vec<(String, V)> = Vec::new();
        std::mem::swap(&mut entries, &mut self.entries);
        if at < entries.len() {
            let (kept, _) = entries.remove(at);
            entries.insert(at, (kept, value));
            proof {
                entry_is_mapped(before, at as int);
                updated_entry(before, at as int, value);
                assert(entries@ =~= before.update(at as int, (before[at as int].0, value)));
            }
        } else {
            proof {
                pushed_entry(before, name, value);
            }
            entries.push((name, value));
        }
        self.entries = entries;
        assert(self.order() =~= (if old(self)@.contains_key(name@) {
            order
        } else {
            order.push(name@)
        }));
    }

    /// Take `name` and its value out. The other names keep their order.
    pub fn remove(&mut self, name: &str) -> (value: Option<V>)
        ensures
            final(self)@ == old(self)@.remove(name@),
            final(self).order() == (if old(self)@.contains_key(name@) {
                old(self).order().remove(old(self).order().index_of(name@))
            } else {
                old(self).order()
            }),
            match value {
                Some(v) => old(self)@.contains_key(name@) && v == old(self)@[name@],
                None => !old(self)@.contains_key(name@),
            },
    {
        proof {
            use_type_invariant(&*self);
        }
        let at = self.find(name);
        let ghost before = self.entries@;
        let ghost order = self.order();
        if at < self.entries.len() {
            let mut entries: Vec<(String, V)> = Vec::new();
            std::mem::swap(&mut entries, &mut self.entries);
            proof {
                entry_is_mapped(before, at as int);
                removed_entry(before, at as int);
            }
            let (_, value) = entries.remove(at);
            self.entries = entries;
            proof {
                assert(order[at as int] == name@);
                let i = order.index_of(name@);
                assert(before[i].0@ == before[at as int].0@);
                assert(self.order() =~= order.remove(i));
            }
            Some(value)
        } else {
            assert(self@.remove(name@) =~= self@);
            None
        }
    }
}

impl<V: Clone> Clone for NameMap<V> {
    fn clone(&self) -> (map: Self)
        ensures
            map.order() == self.order(),
            map@.dom() == self@.dom(),
            forall|name: Seq<char>| #[trigger]
                self@.contains_key(name) ==> cloned::<V>(self@[name], map@[name]),
    {
        proof {
            use_type_invariant(self);
        }
        let mut entries: Vec<(String, V)> = Vec::new();
        let mut i: usize = 0;
        while i < self.entries.len()
            invariant
                i <= self.entries@.len(),
                entries@.len() == i,
                distinct(self.entries@),
                forall|j: int|
                    0 <= j < i ==> (#[trigger] entries@[j]).0 == self.entries@[j].0 && cloned::<V>(
                        self.entries@[j].1,
                        entries@[j].1,
                    ),
            decreases self.entries@.len() - i,
        {
            let entry = &self.entries[i];
            entries.push((entry.0.clone(), entry.1.clone()));
            i += 1;
        }
        proof {
            assert forall|name: Seq<char>| #[trigger]
                listed(entries@, name) == listed(self.entries@, name) by {
                if listed(entries@, name) {
                    assert(self.entries@[place(entries@, name)].0@ == name);
                }
                if listed(self.entries@, name) {
                    assert(entries@[place(self.entries@, name)].0@ == name);
                }
            }
            assert forall|name: Seq<char>| #[trigger]
                self@.contains_key(name) implies cloned::<V>(
                self@[name],
                entries_map(entries@)[name],
            ) by {
                let p = place(self.entries@, name);
                assert(entries@[p].0@ == name);
                entry_is_mapped(entries@, p);
                entry_is_mapped(self.entries@, p);
            }
        }
        let map = NameMap { entries };
        assert(map.order() =~= self.order());
        assert(map@.dom() =~= self@.dom());
        map
    }
}

impl<V> Default for NameMap<V> {
    fn default() -> (map: Self)
        ensures
            map@ == Map::<Seq<char>, V>::empty(),
            map.order() == Seq::<Seq<char>>::empty(),
    {
        NameMap::new()
    }
}

} // verus!
