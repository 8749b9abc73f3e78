//! Tables from names to values.

use vstd::prelude::*;

use crate::text::same_text;

verus! {

/// The finite map that a list of named values stands for: where a name occurs
/// more than once, the last occurrence counts.
pub open spec fn table_of<T>(entries: Seq<(Seq<char>, T)>) -> Map<Seq<char>, T>
    decreases entries.len(),
{
    if entries.len() == 0 {
        Map::empty()
    } else {
        table_of(entries.drop_last()).insert(entries.last().0, entries.last().1)
    }
}

/// No name occurs twice.
pub open spec fn distinct_names<T>(entries: Seq<(Seq<char>, T)>) -> bool {
    forall|i: int, j: int|
        0 <= i < j < entries.len() ==> (#[trigger] entries[i]).0 != (#[trigger] entries[j]).0
}

/// The last entry of a name gives its value.
pub proof fn lemma_table_last<T>(entries: Seq<(Seq<char>, T)>, i: int)
    requires
        0 <= i < entries.len(),
        forall|j: int| i < j < entries.len() ==> (#[trigger] entries[j]).0 != entries[i].0,
    ensures
        table_of(entries).contains_key(entries[i].0),
        table_of(entries)[entries[i].0] == entries[i].1,
    decreases entries.len(),
{
    if i < entries.len() - 1 {
        let init = entries.drop_last();
        assert(init[i] == entries[i]);
        assert forall|j: int| i < j < init.len() implies (#[trigger] init[j]).0 != init[i].0 by {
            assert(init[j] == entries[j]);
        }
        lemma_table_last(init, i);
        assert(entries.last().0 != entries[i].0);
    }
}

/// Every name of the table has an entry, and conversely.
pub proof fn lemma_table_domain<T>(entries: Seq<(Seq<char>, T)>, name: Seq<char>)
    ensures
        table_of(entries).contains_key(name) <==> exists|i: int|
            0 <= i < entries.len() && (#[trigger] entries[i]).0 == name,
    decreases entries.len(),
{
    if entries.len() > 0 {
        let init = entries.drop_last();
        lemma_table_domain(init, name);
        if exists|i: int| 0 <= i < entries.len() && (#[trigger] entries[i]).0 == name {
            let i = choose|i: int| 0 <= i < entries.len() && (#[trigger] entries[i]).0 == name;
            if i < entries.len() - 1 {
                assert(init[i] == entries[i]);
            }
        }
        if exists|i: int| 0 <= i < init.len() && (#[trigger] init[i]).0 == name {
            let i = choose|i: int| 0 <= i < init.len() && (#[trigger] init[i]).0 == name;
            assert(entries[i] == init[i]);
        }
        if entries.last().0 == name {
            assert(entries[entries.len() - 1].0 == name);
        }
    }
}

/// A table has finitely many names.
pub proof fn lemma_table_finite<T>(entries: Seq<(Seq<char>, T)>)
    ensures
        table_of(entries).dom().finite(),
    decreases entries.len(),
{
    if entries.len() > 0 {
        lemma_table_finite(entries.drop_last());
    }
}

/// A table of values gives, under each name, the value of one of its entries.
pub proof fn lemma_table_value<T>(entries: Seq<(Seq<char>, T)>, name: Seq<char>)
    requires
        table_of(entries).contains_key(name),
    ensures
        exists|i: int|
            0 <= i < entries.len() && (#[trigger] entries[i]) == (name, table_of(entries)[name]),
    decreases entries.len(),
{
    let init = entries.drop_last();
    if entries.last().0 == name {
        assert(entries[entries.len() - 1] == (name, table_of(entries)[name]));
    } else {
        lemma_table_value(init, name);
        let i = choose|i: int|
            0 <= i < init.len() && (#[trigger] init[i]) == (name, table_of(init)[name]);
        assert(entries[i] == init[i]);
    }
}

/// The entries of `entries` with every value replaced by what `f` gives for it.
pub open spec fn mapped<T, U>(entries: Seq<(Seq<char>, T)>, f: spec_fn(T) -> U) -> Seq<
    (Seq<char>, U),
> {
    entries.map_values(|e: (Seq<char>, T)| (e.0, f(e.1)))
}

/// Replacing the values of the entries replaces the values of the table.
pub proof fn lemma_table_mapped<T, U>(entries: Seq<(Seq<char>, T)>, f: spec_fn(T) -> U)
    ensures
        table_of(mapped(entries, f)) == table_of(entries).map_values(f),
    decreases entries.len(),
{
    if entries.len() == 0 {
        assert(table_of(mapped(entries, f)) =~= table_of(entries).map_values(f));
    } else {
        let init = entries.drop_last();
        lemma_table_mapped(init, f);
        assert(mapped(entries, f).drop_last() =~= mapped(init, f));
        assert(table_of(mapped(entries, f)) =~= table_of(entries).map_values(f));
    }
}

/// Overwriting the value of the last entry of a name inserts it into the table.
pub proof fn lemma_table_update<T>(entries: Seq<(Seq<char>, T)>, i: int, value: T)
    requires
        0 <= i < entries.len(),
        forall|j: int| i < j < entries.len() ==> (#[trigger] entries[j]).0 != entries[i].0,
    ensures
        table_of(entries.update(i, (entries[i].0, value))) == table_of(entries).insert(
            entries[i].0,
            value,
        ),
    decreases entries.len(),
{
    let name = entries[i].0;
    let next = entries.update(i, (name, value));
    let init = entries.drop_last();
    if i == entries.len() - 1 {
        assert(next.drop_last() =~= init);
        assert(table_of(next) =~= table_of(entries).insert(name, value));
    } else {
        assert(init[i] == entries[i]);
        assert forall|j: int| i < j < init.len() implies (#[trigger] init[j]).0 != init[i].0 by {
            assert(init[j] == entries[j]);
        }
        lemma_table_update(init, i, value);
        assert(next.drop_last() =~= init.update(i, (name, value)));
        assert(entries.last().0 != name);
        assert(table_of(next) =~= table_of(entries).insert(name, value));
    }
}

/// An entry at the end is inserted last.
pub proof fn lemma_table_push<T>(entries: Seq<(Seq<char>, T)>, name: Seq<char>, value: T)
    ensures
        table_of(entries.push((name, value))) == table_of(entries).insert(name, value),
{
    assert(entries.push((name, value)).drop_last() =~= entries);
}

/// The entries with `value` under `name`: in place of what was there, or at the end
/// where `name` is new.
pub open spec fn entered<T>(entries: Seq<(Seq<char>, T)>, name: Seq<char>, value: T) -> Seq<
    (Seq<char>, T),
> {
    if table_of(entries).contains_key(name) {
        entries.map_values(
            |e: (Seq<char>, T)|
                if e.0 == name {
                    (name, value)
                } else {
                    e
                },
        )
    } else {
        entries.push((name, value))
    }
}

/// A table from names to values. No name occurs twice among its entries, which
/// stand in the order in which their names were first inserted.
#[derive(Debug)]
pub struct Table<V> {
    entries: Vec<(String, V)>,
}

/// The names and values of a list of entries.
pub open spec fn entry_views<V: View>(entries: Seq<(String, V)>) -> Seq<(Seq<char>, V::V)> {
    entries.map_values(|e: (String, V)| (e.0@, e.1@))
}

impl<V> Table<V> {
    #[verifier::type_invariant]
    spec fn well_formed(self) -> bool {
        forall|i: int, j: int|
            0 <= i < j < self.entries@.len() ==> (#[trigger] self.entries@[i]).0@ != (
            #[trigger] self.entries@[j]).0@
    }
}

impl<V: View> View for Table<V> {
    type V = Map<Seq<char>, V::V>;

    closed spec fn view(&self) -> Map<Seq<char>, V::V> {
        table_of(self.listing())
    }
}

impl<V: View> Table<V> {
    /// The entries, in the order in which their names were first inserted.
    pub closed spec fn listing(&self) -> Seq<(Seq<char>, V::V)> {
        entry_views(self.entries@)
    }

    /// The entries themselves, in the same order.
    pub closed spec fn contents(&self) -> Seq<(String, V)> {
        self.entries@
    }

    /// The table without entries.
    pub fn new() -> (r: Self)
        ensures
            r@ == Map::<Seq<char>, V::V>::empty(),
            r.listing() == Seq::<(Seq<char>, V::V)>::empty(),
    {
        let entries: Vec<(String, V)> = Vec::new();
        assert(entry_views(entries@) =~= Seq::<(Seq<char>, V::V)>::empty());
        Table { entries }
    }

    /// The table of a list of entries. Where a name occurs more than once, the last
    /// occurrence counts.
    pub fn from_entries(entries: Vec<(String, V)>) -> (r: Self)
        ensures
            r@ == table_of(entry_views(entries@)),
    {
        let ghost source = entries@;
        let ghost all = entry_views(source);
        let mut r: Table<V> = Table::new();
        assert(all.take(0) =~= Seq::<(Seq<char>, V::V)>::empty());
        for e in it: entries
            invariant
                it.seq() == source,
                all == entry_views(source),
                r@ == table_of(all.take(it.index())),
        {
            assert(all.take(it.index() + 1) =~= all.take(it.index()).push((e.0@, e.1@)));
            proof {
                lemma_table_push(all.take(it.index()), e.0@, e.1@);
            }
            r.insert(e.0, e.1);
        }
        assert(all.take(all.len() as int) =~= all);
        r
    }

    /// How many names the table has. No name is listed twice, and the table
    /// holds what is listed.
    pub fn len(&self) -> (r: usize)
        ensures
            r == self.listing().len(),
            distinct_names(self.listing()),
            self@ == table_of(self.listing()),
            self.listing() == entry_views(self.contents()),
    {
        proof {
            use_type_invariant(self);
        }
        self.entries.len()
    }

    /// The name of the entry at `i`.
    pub fn name_at(&self, i: usize) -> (r: &String)
        requires
            i < self.listing().len(),
        ensures
            r@ == self.listing()[i as int].0,
            *r == self.contents()[i as int].0,
    {
        &self.entries[i].0
    }

    /// The value of the entry at `i`.
    pub fn value_at(&self, i: usize) -> (r: &V)
        requires
            i < self.listing().len(),
        ensures
            r@ == self.listing()[i as int].1,
            *r == self.contents()[i as int].1,
    {
        &self.entries[i].1
    }

    /// Where the entry of `name` stands.
    fn position(&self, name: &str) -> (r: Option<usize>)
        ensures
            match r {
                Some(i) => i < self.entries@.len() && self.entries@[i as int].0@ == name@,
                None => forall|i: int|
                    0 <= i < self.entries@.len() ==> (#[trigger] self.entries@[i]).0@ != name@,
            },
    {
        let mut i: usize = 0;
        while i < self.entries.len()
            invariant
                i <= self.entries@.len(),
                forall|j: int| 0 <= j < i ==> (#[trigger] self.entries@[j]).0@ != name@,
            decreases self.entries@.len() - i,
        {
            if same_text(self.entries[i].0.as_str(), name) {
                return Some(i);
            }
            i = i + 1;
        }
        None
    }

    /// The value under `name`.
    pub fn get(&self, name: &str) -> (r: Option<&V>)
        ensures
            r is Some <==> self@.contains_key(name@),
            r matches Some(v) ==> v@ == self@[name@],
    {
        proof {
            use_type_invariant(self);
            lemma_table_domain(self.listing(), name@);
        }
        match self.position(name) {
            Some(i) => {
                proof {
                    lemma_table_last(self.listing(), i as int);
                }
                Some(&self.entries[i].1)
            },
            None => None,
        }
    }

    /// Whether the table has `name`.
    pub fn contains_key(&self, name: &str) -> (r: bool)
        ensures
            r == self@.contains_key(name@),
    {
        self.get(name).is_some()
    }

    /// Puts `value` under `name`, in place of what was there.
    pub fn insert(&mut self, name: String, value: V)
        ensures
            final(self)@ == old(self)@.insert(name@, value@),
            final(self).listing() == entered(old(self).listing(), name@, value@),
    {
        proof {
            use_type_invariant(&*self);
        }
        let at = self.position(name.as_str());
        let ghost before = self.listing();
        let mut entries: Vec<(String, V)> = Vec::new();
        std::mem::swap(&mut entries, &mut self.entries);
        proof {
            lemma_table_domain(before, name@);
        }
        match at {
            Some(i) => {
                proof {
                    lemma_table_update(before, i as int, value@);
                }
                let ghost next = entered(before, name@, value@);
                entries.set(i, (name, value));
                assert(before[i as int].0 == name@);
                assert(entry_views(entries@) =~= next);
                assert(entry_views(entries@) =~= before.update(i as int, (before[i as int].0, value@)));
            },
            None => {
                proof {
                    lemma_table_push(before, name@, value@);
                }
                entries.push((name, value));
                assert(entry_views(entries@) =~= before.push((name@, value@)));
            },
        }
        self.entries = entries;
    }
}

impl<V: View + Clone> Clone for Table<V> {
    /// A copy with the same names in the same order. Where a copy of a value says what
    /// the value says, so does the copy of the table.
    fn clone(&self) -> (r: Self)
        ensures
            r.listing().len() == self.listing().len(),
            forall|i: int|
                0 <= i < r.listing().len() ==> (#[trigger] r.listing()[i]).0 == self.listing()[i].0,
            (forall|a: V, b: V| #[trigger] cloned(a, b) ==> b@ == a@) ==> r.listing()
                == self.listing() && r@ == self@,
    {
        proof {
            use_type_invariant(self);
        }
        let mut entries: Vec<(String, V)> = Vec::new();
        let mut i: usize = 0;
        while i < self.entries.len()
            invariant
                i <= self.entries@.len(),
                entries@.len() == i,
                forall|j: int|
                    0 <= j < i ==> (#[trigger] entries@[j]).0@ == self.entries@[j].0@ && cloned(
                        self.entries@[j].1,
                        entries@[j].1,
                    ),
            decreases self.entries@.len() - i,
        {
            let value = self.entries[i].1.clone();
            entries.push((self.entries[i].0.clone(), value));
            i = i + 1;
        }
        proof {
            if forall|a: V, b: V| #[trigger] cloned(a, b) ==> b@ == a@ {
                assert(entry_views(entries@) =~= self.listing());
            }
        }
        Table { entries }
    }
}

impl Table<String> {
    /// Puts the values of `other` under their names, in place of what was there.
    pub fn extend(&mut self, other: &Table<String>)
        ensures
            final(self)@ == old(self)@.union_prefer_right(other@),
    {
        let n: usize = other.len();
        let ghost list = other.listing();
        let ghost before = self@;
        let mut i: usize = 0;
        assert(list.take(0) =~= Seq::<(Seq<char>, Seq<char>)>::empty());
        assert(self@ =~= before.union_prefer_right(table_of(list.take(0))));
        while i < n
            invariant
                n == list.len(),
                list == other.listing(),
                i <= n,
                self@ == before.union_prefer_right(table_of(list.take(i as int))),
            decreases n - i,
        {
            self.insert(other.name_at(i).clone(), other.value_at(i).clone());
            proof {
                let next = list.take(i + 1);
                assert(next.drop_last() =~= list.take(i as int));
                assert(self@ =~= before.union_prefer_right(table_of(next)));
            }
            i = i + 1;
        }
        assert(list.take(i as int) =~= list);
    }
}

} // verus!
