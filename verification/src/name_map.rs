//! A map from names to values that keeps its entries in the order in which the
//! names were first put in.

use vstd::prelude::*;

verus! {

/// The map that a list of entries stands for: the last entry of a name counts.
pub open spec fn listed_map<W>(entries: Seq<(Seq<char>, W)>) -> Map<Seq<char>, W>
    decreases entries.len(),
{
    if entries.len() == 0 {
        Map::empty()
    } else {
        listed_map(entries.drop_last()).insert(entries.last().0, entries.last().1)
    }
}

/// Whether no name occurs twice in a list of entries.
pub open spec fn names_differ<W>(entries: Seq<(Seq<char>, W)>) -> bool {
    forall|i: int, j: int|
        0 <= i < j < entries.len() ==> (#[trigger] entries[i]).0 != (#[trigger] entries[j]).0
}

/// A map from names to values. No name occurs twice.
pub struct NameMap<V: View> {
    entries: Vec<(String, V)>,
}

/// The entries of a list as what they stand for.
spec fn entry_views<V: View>(entries: Seq<(String, V)>) -> Seq<(Seq<char>, V::V)> {
    entries.map_values(|e: (String, V)| (e.0@, e.1@))
}

impl<V: View> View for NameMap<V> {
    type V = Map<Seq<char>, V::V>;

    open spec fn view(&self) -> Map<Seq<char>, V::V> {
        listed_map(self.listing())
    }
}

/// In a list where no name occurs twice, the map has exactly the names of the
/// list, each with the value beside it.
pub proof fn lemma_listed_map<W>(entries: Seq<(Seq<char>, W)>)
    requires
        names_differ(entries),
    ensures
        forall|i: int|
            0 <= i < entries.len() ==> listed_map(entries).contains_key(
                (#[trigger] entries[i]).0,
            ) && listed_map(entries)[entries[i].0] == entries[i].1,
        forall|k: Seq<char>| #[trigger]
            listed_map(entries).contains_key(k) ==> exists|i: int|
                0 <= i < entries.len() && (#[trigger] entries[i]).0 == k,
    decreases entries.len(),
{
    if entries.len() > 0 {
        let rest = entries.drop_last();
        lemma_listed_map(rest);
        assert forall|i: int| 0 <= i < entries.len() implies listed_map(entries).contains_key(
            (#[trigger] entries[i]).0,
        ) && listed_map(entries)[entries[i].0] == entries[i].1 by {
            if i < rest.len() {
                assert(rest[i] == entries[i]);
                assert(entries[i].0 != entries[entries.len() - 1].0);
            }
        }
        assert forall|k: Seq<char>| #[trigger] listed_map(entries).contains_key(k) implies exists|
            i: int,
        | 0 <= i < entries.len() && (#[trigger] entries[i]).0 == k by {
            if k == entries.last().0 {
                assert(entries[entries.len() - 1].0 == k);
            } else {
                assert(listed_map(rest).contains_key(k));
                let i = choose|i: int| 0 <= i < rest.len() && (#[trigger] rest[i]).0 == k;
                assert(entries[i] == rest[i]);
            }
        }
    }
}

/// Two lists of different names with the same names and values are the same map.
proof fn lemma_listed_map_is<W>(entries: Seq<(Seq<char>, W)>, m: Map<Seq<char>, W>)
    requires
        names_differ(entries),
        forall|i: int|
            0 <= i < entries.len() ==> m.contains_key((#[trigger] entries[i]).0)
                && m[entries[i].0] == entries[i].1,
        forall|k: Seq<char>| #[trigger]
            m.contains_key(k) ==> exists|i: int|
                0 <= i < entries.len() && (#[trigger] entries[i]).0 == k,
    ensures
        listed_map(entries) == m,
{
    lemma_listed_map(entries);
    assert forall|k: Seq<char>| listed_map(entries).contains_key(k) <==> m.contains_key(k) by {
        if listed_map(entries).contains_key(k) {
            let i = choose|i: int| 0 <= i < entries.len() && (#[trigger] entries[i]).0 == k;
            assert(m.contains_key(entries[i].0));
        }
        if m.contains_key(k) {
            let i = choose|i: int| 0 <= i < entries.len() && (#[trigger] entries[i]).0 == k;
            assert(listed_map(entries).contains_key(entries[i].0));
        }
    }
    assert forall|k: Seq<char>| listed_map(entries).contains_key(k) implies listed_map(entries)[k]
        == m[k] by {
        let i = choose|i: int| 0 <= i < entries.len() && (#[trigger] entries[i]).0 == k;
        assert(m[entries[i].0] == entries[i].1);
        assert(listed_map(entries)[entries[i].0] == entries[i].1);
    }
    assert(listed_map(entries) =~= m);
}

/// The place of a name in a list of entries; the length where it has none.
pub open spec fn name_place<W>(entries: Seq<(Seq<char>, W)>, name: Seq<char>) -> int
    decreases entries.len(),
{
    if entries.len() == 0 || entries[0].0 == name {
        0
    } else {
        1 + name_place(entries.drop_first(), name)
    }
}

/// The entries once a name has a value: in its old place if it had one, else at
/// the end.
pub open spec fn put_entry<W>(entries: Seq<(Seq<char>, W)>, name: Seq<char>, value: W) -> Seq<
    (Seq<char>, W),
> {
    let at = name_place(entries, name);
    if at < entries.len() {
        entries.update(at, (name, value))
    } else {
        entries.push((name, value))
    }
}

/// The entries without a name.
pub open spec fn drop_entry<W>(entries: Seq<(Seq<char>, W)>, name: Seq<char>) -> Seq<
    (Seq<char>, W),
> {
    let at = name_place(entries, name);
    if at < entries.len() {
        entries.remove(at)
    } else {
        entries
    }
}

proof fn lemma_name_place_is<W>(entries: Seq<(Seq<char>, W)>, name: Seq<char>, n: int)
    requires
        0 <= n <= entries.len(),
        forall|i: int| 0 <= i < n ==> (#[trigger] entries[i]).0 != name,
        n < entries.len() ==> entries[n].0 == name,
    ensures
        name_place(entries, name) == n,
    decreases entries.len(),
{
    if n > 0 {
        let rest = entries.drop_first();
        assert(entries[0].0 != name);
        assert forall|i: int| 0 <= i < n - 1 implies (#[trigger] rest[i]).0 != name by {
            assert(rest[i] == entries[i + 1]);
        }
        if n < entries.len() {
            assert(rest[n - 1] == entries[n]);
        }
        lemma_name_place_is(rest, name, n - 1);
    }
}

/// Whether a name is in the list, by its place.
proof fn lemma_name_place_missing<W>(entries: Seq<(Seq<char>, W)>, name: Seq<char>, n: int)
    requires
        names_differ(entries),
        0 <= n <= entries.len(),
        forall|i: int| 0 <= i < n ==> (#[trigger] entries[i]).0 != name,
        n < entries.len() ==> entries[n].0 == name,
    ensures
        name_place(entries, name) == n,
        listed_map(entries).contains_key(name) <==> n < entries.len(),
        n < entries.len() ==> listed_map(entries)[name] == entries[n].1,
{
    lemma_name_place_is(entries, name, n);
    lemma_listed_map(entries);
    if n < entries.len() {
        assert(listed_map(entries).contains_key(entries[n].0));
    }
}

/// The place of a name in a list, and what the list says of the name there.
pub proof fn lemma_name_place<W>(entries: Seq<(Seq<char>, W)>, name: Seq<char>)
    requires
        names_differ(entries),
    ensures
        0 <= name_place(entries, name) <= entries.len(),
        listed_map(entries).contains_key(name) <==> name_place(entries, name) < entries.len(),
        name_place(entries, name) < entries.len() ==> entries[name_place(entries, name)] == (
            name,
            listed_map(entries)[name],
        ),
{
    lemma_listed_map(entries);
    if listed_map(entries).contains_key(name) {
        let i = choose|i: int| 0 <= i < entries.len() && (#[trigger] entries[i]).0 == name;
        assert forall|j: int| 0 <= j < i implies (#[trigger] entries[j]).0 != name by {
            assert(entries[j].0 != entries[i].0);
        }
        lemma_name_place_is(entries, name, i);
    } else {
        assert forall|j: int| 0 <= j < entries.len() implies (#[trigger] entries[j]).0 != name by {
            assert(listed_map(entries).contains_key(entries[j].0));
        }
        lemma_name_place_is(entries, name, entries.len() as int);
    }
}

/// Once a name has a value in a list, it has that value in the map, and still no
/// name occurs twice.
pub proof fn lemma_put_entry<W>(entries: Seq<(Seq<char>, W)>, name: Seq<char>, value: W)
    requires
        names_differ(entries),
    ensures
        names_differ(put_entry(entries, name, value)),
        listed_map(put_entry(entries, name, value)) == listed_map(entries).insert(name, value),
{
    let m = listed_map(entries);
    let after = put_entry(entries, name, value);
    let at = name_place(entries, name);
    lemma_listed_map(entries);
    lemma_name_place(entries, name);
    assert forall|a: int, b: int| 0 <= a < b < after.len() implies (#[trigger] after[a]).0 != (
    #[trigger] after[b]).0 by {
        assert(after[a].0 == entries[a].0);
        assert(m.contains_key(entries[a].0));
        if b < entries.len() {
            assert(after[b].0 == entries[b].0);
        }
    }
    let expected = m.insert(name, value);
    assert forall|a: int| 0 <= a < after.len() implies expected.contains_key((#[trigger] after[a]).0)
        && expected[after[a].0] == after[a].1 by {
        if a != at {
            assert(after[a] == entries[a]);
            assert(m.contains_key(entries[a].0));
            if at < entries.len() {
                if a < at {
                    assert(entries[a].0 != entries[at].0);
                } else {
                    assert(entries[at].0 != entries[a].0);
                }
            }
        }
    }
    assert forall|k: Seq<char>| #[trigger] expected.contains_key(k) implies exists|a: int|
        0 <= a < after.len() && (#[trigger] after[a]).0 == k by {
        if k == name {
            assert(after[at].0 == k);
        } else {
            assert(m.contains_key(k));
            let a = choose|a: int| 0 <= a < entries.len() && (#[trigger] entries[a]).0 == k;
            assert(after[a].0 == k);
        }
    }
    lemma_listed_map_is(after, expected);
}

impl<V: View> NameMap<V> {
    /// The entries in order.
    pub closed spec fn listing(&self) -> Seq<(Seq<char>, V::V)> {
        entry_views(self.entries@)
    }

    #[verifier::type_invariant]
    spec fn well_formed(self) -> bool {
        names_differ(entry_views(self.entries@))
    }

    /// A map without entries.
    pub fn new() -> (r: Self)
        ensures
            r.listing() == Seq::<(Seq<char>, V::V)>::empty(),
            r@ == Map::<Seq<char>, V::V>::empty(),
    {
        let r = NameMap { entries: Vec::new() };
        assert(r.listing() =~= Seq::empty());
        r
    }

    /// The number of entries.
    pub fn len(&self) -> (r: usize)
        ensures
            r == self.listing().len(),
            names_differ(self.listing()),
    {
        proof {
            use_type_invariant(self);
        }
        self.entries.len()
    }

    /// Whether there is no entry.
    pub fn is_empty(&self) -> (r: bool)
        ensures
            r == (self.listing().len() == 0),
            r == self@.is_empty(),
    {
        proof {
            use_type_invariant(self);
            lemma_listed_map(self.listing());
            if self.listing().len() > 0 {
                assert(self@.contains_key(self.listing()[0].0));
            } else {
                assert(self@ =~= Map::empty());
            }
        }
        self.entries.len() == 0
    }

    /// The name of an entry.
    pub fn name_at(&self, i: usize) -> (r: &String)
        requires
            i < self.listing().len(),
        ensures
            r@ == self.listing()[i as int].0,
    {
        &self.entries[i].0
    }

    /// The value of an entry.
    pub fn value_at(&self, i: usize) -> (r: &V)
        requires
            i < self.listing().len(),
        ensures
            r@ == self.listing()[i as int].1,
    {
        &self.entries[i].1
    }

    fn place_of(&self, name: &str) -> (r: usize)
        ensures
            r == name_place(self.listing(), name@),
            r <= self.listing().len(),
            self@.contains_key(name@) <==> r < self.listing().len(),
            r < self.listing().len() ==> self.listing()[r as int].0 == name@
                && self.listing()[r as int].1 == self@[name@],
    {
        proof {
            use_type_invariant(self);
        }
        let mut i: usize = 0;
        while i < self.entries.len() && !(*self.entries[i].0.as_str() == *name)
            invariant
                i <= self.entries@.len(),
                forall|j: int| 0 <= j < i ==> (#[trigger] self.listing()[j]).0 != name@,
            decreases self.entries@.len() - i,
        {
            assert(self.listing()[i as int].0 == self.entries@[i as int].0@);
            i = i + 1;
        }
        proof {
            if i < self.entries@.len() {
                assert(self.listing()[i as int].0 == self.entries@[i as int].0@);
            }
            lemma_name_place_missing(self.listing(), name@, i as int);
        }
        i
    }

    /// Whether a name has an entry.
    pub fn contains_key(&self, name: &str) -> (r: bool)
        ensures
            r == self@.contains_key(name@),
    {
        self.place_of(name) < self.entries.len()
    }

    /// The value of a name.
    pub fn get(&self, name: &str) -> (r: Option<&V>)
        ensures
            match r {
                Some(v) => self@.contains_key(name@) && v@ == self@[name@],
                None => !self@.contains_key(name@),
            },
    {
        let i = self.place_of(name);
        if i < self.entries.len() {
            Some(&self.entries[i].1)
        } else {
            None
        }
    }

    /// Give a name a value.
    pub fn insert(&mut self, name: String, value: V)
        ensures
            final(self)@ == old(self)@.insert(name@, value@),
            final(self).listing() == put_entry(old(self).listing(), name@, value@),
    {
        let i = self.place_of(name.as_str());
        let ghost before = self.listing();
        let ghost key = name@;
        proof {
            use_type_invariant(&*self);
        }
        let mut entries: Vec<(String, V)> = Vec::new();
        std::mem::swap(&mut entries, &mut self.entries);
        if i < entries.len() {
            entries[i] = (name, value);
        } else {
            entries.push((name, value));
        }
        proof {
            assert(entry_views(entries@) =~= put_entry(before, key, value@));
            lemma_put_entry(before, key, value@);
        }
        self.entries = entries;
    }

    /// Take a name out.
    pub fn remove(&mut self, name: &str) -> (r: Option<V>)
        ensures
            final(self)@ == old(self)@.remove(name@),
            final(self).listing() == drop_entry(old(self).listing(), name@),
            match r {
                Some(v) => old(self)@.contains_key(name@) && v@ == old(self)@[name@],
                None => !old(self)@.contains_key(name@),
            },
    {
        let i = self.place_of(name);
        let ghost before = self.listing();
        let ghost m = self@;
        proof {
            use_type_invariant(&*self);
        }
        if i >= self.entries.len() {
            assert(m.remove(name@) =~= m);
            return None;
        }
        let mut entries: Vec<(String, V)> = Vec::new();
        std::mem::swap(&mut entries, &mut self.entries);
        let taken = entries.remove(i);
        proof {
            let after = entry_views(entries@);
            assert(after =~= before.remove(i as int));
            lemma_listed_map(before);
            assert(names_differ(after)) by {
                assert forall|a: int, b: int| 0 <= a < b < after.len() implies (
                #[trigger] after[a]).0 != (#[trigger] after[b]).0 by {
                    let a0 = if a < i { a } else { a + 1 };
                    let b0 = if b < i { b } else { b + 1 };
                    assert(after[a] == before[a0]);
                    assert(after[b] == before[b0]);
                }
            }
            let expected = m.remove(name@);
            assert forall|a: int| 0 <= a < after.len() implies expected.contains_key(
                (#[trigger] after[a]).0,
            ) && expected[after[a].0] == after[a].1 by {
                let a0 = if a < i { a } else { a + 1 };
                assert(after[a] == before[a0]);
                assert(m.contains_key(before[a0].0));
                if a0 < i {
                    assert(before[a0].0 != before[i as int].0);
                } else {
                    assert(before[i as int].0 != before[a0].0);
                }
            }
            assert forall|k: Seq<char>| #[trigger] expected.contains_key(k) implies exists|a: int|
                0 <= a < after.len() && (#[trigger] after[a]).0 == k by {
                assert(m.contains_key(k));
                let a0 = choose|a: int| 0 <= a < before.len() && (#[trigger] before[a]).0 == k;
                let a = if a0 < i { a0 } else { a0 - 1 };
                assert(a0 != i);
                assert(after[a] == before[a0]);
            }
            lemma_listed_map_is(after, expected);
        }
        self.entries = entries;
        Some(taken.1)
    }
}

/// A name that gets a value keeps its place where it had one, and comes last where
/// it had none. All other entries stay in their places with their values.
pub proof fn law_put_entry_keeps_order<W>(
    entries: Seq<(Seq<char>, W)>,
    name: Seq<char>,
    value: W,
    i: int,
)
    requires
        names_differ(entries),
        0 <= i < entries.len(),
    ensures
        ({
            let after = put_entry(entries, name, value);
            &&& entries[i].0 != name ==> after[i] == entries[i]
            &&& entries[i].0 == name ==> after[i] == (name, value) && after.len() == entries.len()
            &&& (forall|j: int| 0 <= j < entries.len() ==> (#[trigger] entries[j]).0 != name)
                ==> after.len() == entries.len() + 1 && after[entries.len() as int] == (name, value)
        }),
{
    lemma_name_place(entries, name);
    let at = name_place(entries, name);
    if at < entries.len() && entries[i].0 == name && i != at {
        if i < at {
            assert(entries[i].0 != entries[at].0);
        } else {
            assert(entries[at].0 != entries[i].0);
        }
    }
    if at >= entries.len() && entries[i].0 == name {
        lemma_listed_map(entries);
        assert(listed_map(entries).contains_key(entries[i].0));
    }
}

/// A name that is taken out leaves the other entries in their order with their
/// values. A name that has no entry leaves all as it was.
pub proof fn law_drop_entry_keeps_order<W>(
    entries: Seq<(Seq<char>, W)>,
    name: Seq<char>,
    at: int,
    i: int,
)
    requires
        names_differ(entries),
        0 <= at < entries.len(),
        0 <= i < entries.len(),
    ensures
        ({
            let after = drop_entry(entries, name);
            &&& entries[at].0 == name ==> {
                &&& after.len() == entries.len() - 1
                &&& i < at ==> after[i] == entries[i]
                &&& i > at ==> after[i - 1] == entries[i]
            }
            &&& (forall|j: int| 0 <= j < entries.len() ==> (#[trigger] entries[j]).0 != name)
                ==> after == entries
        }),
{
    lemma_name_place(entries, name);
    let place = name_place(entries, name);
    if entries[at].0 == name {
        lemma_listed_map(entries);
        assert(listed_map(entries).contains_key(entries[at].0));
        if place < at {
            assert(entries[place].0 != entries[at].0);
        }
        if at < place {
            assert(entries[at].0 != entries[place].0);
        }
    }
}

/// A map stands for what its entries list: each name for the value beside it, and
/// no other name.
pub proof fn law_map_lists_its_entries<V: View>(m: NameMap<V>, name: Seq<char>, i: int)
    requires
        names_differ(m.listing()),
    ensures
        0 <= i < m.listing().len() ==> m@.contains_key(m.listing()[i].0) && m@[m.listing()[i].0]
            == m.listing()[i].1,
        m@.contains_key(name) ==> exists|j: int|
            0 <= j < m.listing().len() && (#[trigger] m.listing()[j]).0 == name,
{
    lemma_listed_map(m.listing());
}

}
