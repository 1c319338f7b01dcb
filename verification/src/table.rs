//! Tables: values by their names, in the order in which the names came.
//!
//! Unlike a [`crate::names::NameMap`], a table can be walked, and a value can be
//! taken out of it to be changed.

use crate::text::same_text;
use vstd::prelude::*;

verus! {

/// The map that a list of named values describes: a later value replaces an
/// earlier one of the same name.
pub open spec fn members<T>(entries: Seq<(Seq<char>, T)>) -> Map<Seq<char>, T>
    decreases entries.len(),
{
    if entries.len() == 0 {
        Map::empty()
    } else {
        members(entries.drop_last()).insert(entries.last().0, entries.last().1)
    }
}

/// The last of a list of named values is the one that the map has.
pub proof fn lemma_push<T>(entries: Seq<(Seq<char>, T)>, name: Seq<char>, value: T)
    ensures
        members(entries.push((name, value))) == members(entries).insert(name, value),
{
    assert(entries.push((name, value)).drop_last() =~= entries);
}

/// Whether no two of some named values have the same name.
pub open spec fn distinct_names<T>(entries: Seq<(Seq<char>, T)>) -> bool {
    forall|i: int, j: int|
        0 <= i < j < entries.len() ==> (#[trigger] entries[i]).0 != (#[trigger] entries[j]).0
}

/// The names in the map are those of the list, and of values with different
/// names each is found again in the map.
pub proof fn lemma_members<T>(entries: Seq<(Seq<char>, T)>)
    ensures
        members(entries).dom().finite(),
        forall|i: int|
            0 <= i < entries.len() ==> members(entries).dom().contains((#[trigger] entries[i]).0),
        forall|name: Seq<char>| #[trigger]
            members(entries).dom().contains(name) ==> exists|i: int|
                0 <= i < entries.len() && (#[trigger] entries[i]).0 == name,
        distinct_names(entries) ==> forall|i: int|
            0 <= i < entries.len() ==> members(entries)[(#[trigger] entries[i]).0] == entries[i].1,
    decreases entries.len(),
{
    if entries.len() > 0 {
        let rest = entries.drop_last();
        lemma_members(rest);
        let n = entries.len() - 1;
        assert forall|name: Seq<char>| #[trigger]
            members(entries).dom().contains(name) implies exists|i: int|
            0 <= i < entries.len() && (#[trigger] entries[i]).0 == name by {
            if name == entries.last().0 {
                assert(entries[n].0 == name);
            } else {
                assert(members(rest).dom().contains(name));
                let i = choose|i: int| 0 <= i < rest.len() && (#[trigger] rest[i]).0 == name;
                assert(entries[i].0 == name);
            }
        }
        assert forall|i: int| 0 <= i < entries.len() implies members(entries).dom().contains(
            (#[trigger] entries[i]).0,
        ) by {
            if i < n {
                assert(rest[i] == entries[i]);
            }
        }
        if distinct_names(entries) {
            assert forall|i: int, j: int| 0 <= i < j < rest.len() implies (#[trigger] rest[i]).0
                != (#[trigger] rest[j]).0 by {
                assert(entries[i].0 != entries[j].0);
            }
            assert forall|i: int| 0 <= i < entries.len() implies members(
                entries,
            )[(#[trigger] entries[i]).0] == entries[i].1 by {
                if i < n {
                    assert(entries[i].0 != entries[n].0);
                    assert(rest[i] == entries[i]);
                }
            }
        }
    }
}

/// Values by their names.
#[derive(Debug)]
pub struct Table<V> {
    entries: Vec<(String, V)>,
}

/// The models of some named values.
pub open spec fn named_views<V: DeepView>(entries: Seq<(String, V)>) -> Seq<(Seq<char>, V::V)> {
    Seq::new(entries.len(), |i: int| (entries[i].0@, entries[i].1.deep_view()))
}

impl<V> Table<V> {
    /// No name occurs twice.
    #[verifier::type_invariant]
    spec fn names_differ(self) -> bool {
        forall|i: int, j: int|
            0 <= i < j < self.entries@.len() ==> (#[trigger] self.entries@[i]).0@ != (
            #[trigger] self.entries@[j]).0@
    }
}

impl<V: DeepView> Table<V> {
    /// The named values in the order in which their names came.
    pub closed spec fn listing(self) -> Seq<(Seq<char>, V::V)> {
        named_views(self.entries@)
    }
}

/// The model of a table's values has no name twice.
proof fn lemma_names_differ<V: DeepView>(table: Table<V>)
    requires
        table.names_differ(),
    ensures
        distinct_names(table.listing()),
{
    let views = table.listing();
    assert forall|i: int, j: int| 0 <= i < j < views.len() implies (#[trigger] views[i]).0 != (
    #[trigger] views[j]).0 by {
        assert(table.entries@[i].0@ != table.entries@[j].0@);
    }
}

impl<V: DeepView> View for Table<V> {
    type V = Map<Seq<char>, V::V>;

    open spec fn view(&self) -> Map<Seq<char>, V::V> {
        members(self.listing())
    }
}

/// A list of named values after one of them was set: where its name was there,
/// in its place, and else at the end.
pub open spec fn listing_set<T>(listing: Seq<(Seq<char>, T)>, name: Seq<char>, value: T) -> Seq<
    (Seq<char>, T),
> {
    if exists|i: int| 0 <= i < listing.len() && (#[trigger] listing[i]).0 == name {
        listing.map_values(
            |e: (Seq<char>, T)|
                if e.0 == name {
                    (name, value)
                } else {
                    e
                },
        )
    } else {
        listing.push((name, value))
    }
}

/// A list of named values without one name.
pub open spec fn listing_without<T>(listing: Seq<(Seq<char>, T)>, name: Seq<char>) -> Seq<
    (Seq<char>, T),
> {
    listing.filter(|e: (Seq<char>, T)| e.0 != name)
}

impl<V: DeepView> Table<V> {
    /// The table without values.
    pub fn new() -> (table: Table<V>)
        ensures
            table.listing() == Seq::<(Seq<char>, V::V)>::empty(),
            table@ == Map::<Seq<char>, V::V>::empty(),
    {
        let table = Table { entries: Vec::new() };
        assert(table.listing() =~= Seq::empty());
        table
    }

    fn find(&self, name: &str) -> (index: Option<usize>)
        ensures
            match index {
                Some(i) => i < self.entries@.len() && self.entries@[i as int].0@ == name@
                    && self@.dom().contains(name@) && self@[name@]
                    == self.entries@[i as int].1.deep_view(),
                None => !self@.dom().contains(name@) && forall|k: int|
                    0 <= k < self.entries@.len() ==> (#[trigger] self.entries@[k]).0@ != name@,
            },
    {
        let ghost views = self.listing();
        proof {
            use_type_invariant(self);
            lemma_names_differ(*self);
            lemma_members(views);
        }
        for i in 0..self.entries.len()
            invariant
                views == named_views(self.entries@),
                self@ == members(views),
                forall|k: int| 0 <= k < i ==> (#[trigger] self.entries@[k]).0@ != name@,
                forall|k: int|
                    0 <= k < views.len() ==> self@.dom().contains((#[trigger] views[k]).0)
                        && self@[views[k].0] == views[k].1,
        {
            if same_text(self.entries[i].0.as_str(), name) {
                assert(views[i as int].0 == name@);
                return Some(i);
            }
        }
        proof {
            if self@.dom().contains(name@) {
                let k = choose|k: int| 0 <= k < views.len() && (#[trigger] views[k]).0 == name@;
                assert(self.entries@[k].0@ != name@);
            }
        }
        None
    }

    /// The value of a name.
    pub fn get(&self, name: &str) -> (value: Option<&V>)
        ensures
            match value {
                Some(v) => self@.dom().contains(name@) && v.deep_view() == self@[name@],
                None => !self@.dom().contains(name@),
            },
    {
        match self.find(name) {
            Some(i) => Some(&self.entries[i].1),
            None => None,
        }
    }

    /// Whether a name has a value.
    pub fn contains(&self, name: &str) -> (b: bool)
        ensures
            b == self@.dom().contains(name@),
    {
        match self.find(name) {
            Some(_) => true,
            None => false,
        }
    }

    /// Gives a name a value, in the place of the one that it had.
    pub fn insert(&mut self, name: &str, value: V)
        ensures
            final(self)@ == old(self)@.insert(name@, value.deep_view()),
            final(self).listing() == listing_set(old(self).listing(), name@, value.deep_view()),
    {
        let ghost before = self.listing();
        let ghost view = value.deep_view();
        proof {
            use_type_invariant(&*self);
            lemma_names_differ(*self);
        }
        let found = self.find(name);
        let mut entries: Vec<(String, V)> = Vec::new();
        std::mem::swap(&mut entries, &mut self.entries);
        match found {
            Some(i) => {
                let key = entries[i].0.clone();
                entries.set(i, (key, value));
                self.entries = entries;
                let ghost after = self.listing();
                proof {
                    assert(before[i as int].0 == name@);
                    assert forall|k: int| 0 <= k < before.len() && k != i implies (
                    #[trigger] before[k]).0 != name@ by {
                        if k < i {
                            assert(before[k].0 != before[i as int].0);
                        } else {
                            assert(before[i as int].0 != before[k].0);
                        }
                    }
                    assert(after =~= listing_set(before, name@, view));
                    lemma_listing_set(before, name@, view);
                }
            },
            None => {
                let ghost given = entries@;
                entries.push((name.to_owned(), value));
                self.entries = entries;
                let ghost after = self.listing();
                proof {
                    assert forall|k: int| 0 <= k < before.len() implies (#[trigger] before[k]).0
                        != name@ by {
                        assert(given[k].0@ != name@);
                    }
                    assert(after =~= listing_set(before, name@, view));
                    lemma_listing_set(before, name@, view);
                }
            },
        }
    }

    /// Takes a name and its value away.
    pub fn remove(&mut self, name: &str) -> (value: Option<V>)
        ensures
            final(self)@ == old(self)@.remove(name@),
            final(self).listing() == listing_without(old(self).listing(), name@),
            match value {
                Some(v) => old(self)@.dom().contains(name@) && v.deep_view() == old(self)@[name@],
                None => !old(self)@.dom().contains(name@),
            },
    {
        let ghost before = self.listing();
        proof {
            use_type_invariant(&*self);
            lemma_names_differ(*self);
        }
        match self.find(name) {
            Some(i) => {
                let mut entries: Vec<(String, V)> = Vec::new();
                std::mem::swap(&mut entries, &mut self.entries);
                let (_, value) = entries.remove(i);
                self.entries = entries;
                let ghost after = self.listing();
                proof {
                    assert(after =~= before.remove(i as int));
                    assert(before[i as int].0 == name@);
                    lemma_removed(before, i as int);
                    lemma_filtered(before, i as int);
                }
                Some(value)
            },
            None => {
                proof {
                    lemma_members(before);
                    assert forall|k: int| 0 <= k < before.len() implies (#[trigger] before[k]).0
                        != name@ by {
                        assert(self.entries@[k].0@ != name@);
                    }
                    lemma_nothing_filtered(before, name@);
                    assert(old(self)@.remove(name@) =~= old(self)@);
                }
                None
            },
        }
    }

    /// Takes away a name that has a value.
    pub fn take(&mut self, name: &str) -> (value: V)
        requires
            old(self)@.dom().contains(name@),
        ensures
            final(self)@ == old(self)@.remove(name@),
            value.deep_view() == old(self)@[name@],
    {
        self.remove(name).unwrap()
    }

    /// The number of names.
    pub fn len(&self) -> (n: usize)
        ensures
            n == self.listing().len(),
    {
        self.entries.len()
    }

    /// A name and its value, by their place in the order.
    pub fn entry(&self, index: usize) -> (entry: (&str, &V))
        requires
            index < self.listing().len(),
        ensures
            entry.0@ == self.listing()[index as int].0,
            entry.1.deep_view() == self.listing()[index as int].1,
    {
        (self.entries[index].0.as_str(), &self.entries[index].1)
    }
}

/// Setting one value of a list sets it in the map.
proof fn lemma_set<T>(
    before: Seq<(Seq<char>, T)>,
    after: Seq<(Seq<char>, T)>,
    name: Seq<char>,
    value: T,
)
    requires
        distinct_names(before),
        after.len() == before.len(),
        exists|i: int| 0 <= i < before.len() && (#[trigger] before[i]).0 == name,
        forall|k: int|
            0 <= k < before.len() ==> #[trigger] after[k] == (if before[k].0 == name {
                (name, value)
            } else {
                before[k]
            }),
    ensures
        distinct_names(after),
        members(after) == members(before).insert(name, value),
{
    assert forall|i: int, j: int| 0 <= i < j < after.len() implies (#[trigger] after[i]).0 != (
    #[trigger] after[j]).0 by {
        assert(before[i].0 != before[j].0);
    }
    lemma_members(before);
    lemma_members(after);
    let i = choose|i: int| 0 <= i < before.len() && (#[trigger] before[i]).0 == name;
    assert(after[i] == (name, value));
    assert forall|n: Seq<char>| #[trigger]
        members(after).dom().contains(n) <==> members(before).insert(name, value).dom().contains(
            n,
        ) by {
        if members(after).dom().contains(n) {
            let k = choose|k: int| 0 <= k < after.len() && (#[trigger] after[k]).0 == n;
            assert(before[k].0 == n);
        }
        if members(before).dom().contains(n) {
            let k = choose|k: int| 0 <= k < before.len() && (#[trigger] before[k]).0 == n;
            assert(after[k].0 == n);
        }
    }
    assert forall|n: Seq<char>| #[trigger] members(after).dom().contains(n) implies members(
        after,
    )[n] == members(before).insert(name, value)[n] by {
        let k = choose|k: int| 0 <= k < after.len() && (#[trigger] after[k]).0 == n;
        assert(before[k].0 == n);
    }
    assert(members(after) =~= members(before).insert(name, value));
}

/// A list without a name that it does not hold is the list.
proof fn lemma_nothing_filtered<T>(entries: Seq<(Seq<char>, T)>, name: Seq<char>)
    requires
        forall|k: int| 0 <= k < entries.len() ==> (#[trigger] entries[k]).0 != name,
    ensures
        listing_without(entries, name) == entries,
    decreases entries.len(),
{
    reveal(Seq::filter);
    if entries.len() > 0 {
        let rest = entries.drop_last();
        assert forall|k: int| 0 <= k < rest.len() implies (#[trigger] rest[k]).0 != name by {
            assert(entries[k].0 != name);
        }
        lemma_nothing_filtered(rest, name);
        assert(entries[entries.len() - 1].0 != name);
        assert(rest.push(entries.last()) =~= entries);
    }
}

/// Taking one value out of a list takes it out of the map.
proof fn lemma_removed<T>(entries: Seq<(Seq<char>, T)>, i: int)
    requires
        distinct_names(entries),
        0 <= i < entries.len(),
    ensures
        distinct_names(entries.remove(i)),
        members(entries.remove(i)) == members(entries).remove(entries[i].0),
{
    let after = entries.remove(i);
    let name = entries[i].0;
    assert forall|a: int, b: int| 0 <= a < b < after.len() implies (#[trigger] after[a]).0 != (
    #[trigger] after[b]).0 by {
        let x = if a < i {
            a
        } else {
            a + 1
        };
        let y = if b < i {
            b
        } else {
            b + 1
        };
        assert(entries[x].0 != entries[y].0);
    }
    lemma_members(entries);
    lemma_members(after);
    assert forall|n: Seq<char>| #[trigger]
        members(after).dom().contains(n) <==> members(entries).remove(name).dom().contains(n) by {
        if members(after).dom().contains(n) {
            let k = choose|k: int| 0 <= k < after.len() && (#[trigger] after[k]).0 == n;
            let x = if k < i {
                k
            } else {
                k + 1
            };
            assert(entries[x].0 == n);
            if x < i {
                assert(entries[x].0 != entries[i].0);
            } else {
                assert(entries[i].0 != entries[x].0);
            }
        }
        if members(entries).dom().contains(n) && n != name {
            let k = choose|k: int| 0 <= k < entries.len() && (#[trigger] entries[k]).0 == n;
            let x = if k < i {
                k
            } else {
                k - 1
            };
            assert(after[x].0 == n);
        }
    }
    assert forall|n: Seq<char>| #[trigger] members(after).dom().contains(n) implies members(
        after,
    )[n] == members(entries)[n] by {
        let k = choose|k: int| 0 <= k < after.len() && (#[trigger] after[k]).0 == n;
        let x = if k < i {
            k
        } else {
            k + 1
        };
        assert(entries[x].0 == n);
    }
    assert(members(after) =~= members(entries).remove(name));
}

/// A list without the name of one of its values is the list without that
/// value.
proof fn lemma_filtered<T>(entries: Seq<(Seq<char>, T)>, i: int)
    requires
        distinct_names(entries),
        0 <= i < entries.len(),
    ensures
        listing_without(entries, entries[i].0) == entries.remove(i),
    decreases entries.len(),
{
    reveal(Seq::filter);
    let name = entries[i].0;
    let rest = entries.drop_last();
    let n = rest.len() as int;
    assert forall|a: int, b: int| 0 <= a < b < rest.len() implies (#[trigger] rest[a]).0 != (
    #[trigger] rest[b]).0 by {
        assert(entries[a].0 != entries[b].0);
    }
    if i == n {
        assert forall|k: int| 0 <= k < n implies (#[trigger] rest[k]).0 != name by {
            assert(entries[k].0 != entries[i].0);
        }
        lemma_nothing_filtered(rest, name);
        assert(entries.remove(i) =~= rest);
    } else {
        lemma_filtered(rest, i);
        assert(entries[i].0 != entries[n].0);
        assert(entries.remove(i) =~= rest.remove(i).push(entries.last()));
    }
}

/// Setting a value of a list sets it in the map, and gives no name twice.
pub proof fn lemma_listing_set<T>(listing: Seq<(Seq<char>, T)>, name: Seq<char>, value: T)
    requires
        distinct_names(listing),
    ensures
        distinct_names(listing_set(listing, name, value)),
        members(listing_set(listing, name, value)) == members(listing).insert(name, value),
{
    let after = listing_set(listing, name, value);
    if exists|i: int| 0 <= i < listing.len() && (#[trigger] listing[i]).0 == name {
        lemma_set(listing, after, name, value);
    } else {
        assert(after.drop_last() =~= listing);
        assert forall|i: int, j: int| 0 <= i < j < after.len() implies (#[trigger] after[i]).0 != (
        #[trigger] after[j]).0 by {
            if j < listing.len() {
                assert(listing[i].0 != listing[j].0);
            } else {
                assert(listing[i].0 != name);
            }
        }
    }
}

/// Taking a name out of a list takes it out of the map, and gives no name
/// twice.
pub proof fn lemma_listing_without<T>(listing: Seq<(Seq<char>, T)>, name: Seq<char>)
    requires
        distinct_names(listing),
    ensures
        distinct_names(listing_without(listing, name)),
        members(listing_without(listing, name)) == members(listing).remove(name),
{
    if exists|i: int| 0 <= i < listing.len() && (#[trigger] listing[i]).0 == name {
        let i = choose|i: int| 0 <= i < listing.len() && (#[trigger] listing[i]).0 == name;
        lemma_filtered(listing, i);
        lemma_removed(listing, i);
    } else {
        lemma_nothing_filtered(listing, name);
        lemma_members(listing);
        assert(members(listing) =~= members(listing).remove(name));
    }
}

/// A name that is new is listed last; the value of one that is listed is set
/// where it stands. The others stay where they are, as they are.
pub proof fn names_are_listed_in_their_order<T>(
    listing: Seq<(Seq<char>, T)>,
    name: Seq<char>,
    value: T,
    i: int,
)
    requires
        0 <= i < listing.len(),
    ensures
        ({
            let after = listing_set(listing, name, value);
            &&& after[i] == (if listing[i].0 == name {
                (name, value)
            } else {
                listing[i]
            })
            &&& listing[i].0 == name ==> after.len() == listing.len()
            &&& after.len() == listing.len() || after.len() == listing.len() + 1
            &&& after.len() == listing.len() + 1 ==> after.last() == (name, value)
        }),
{
    let after = listing_set(listing, name, value);
    if exists|k: int| 0 <= k < listing.len() && (#[trigger] listing[k]).0 == name {
        assert(after.len() == listing.len());
    } else {
        assert(listing[i].0 != name);
    }
}

/// A name that is taken out is listed no more; the others are listed in the
/// order in which they were.
pub proof fn others_stay_listed_in_their_order<T>(
    before: Seq<(Seq<char>, T)>,
    name: Seq<char>,
    value: T,
    behind: Seq<(Seq<char>, T)>,
)
    requires
        forall|i: int| 0 <= i < before.len() ==> (#[trigger] before[i]).0 != name,
        forall|i: int| 0 <= i < behind.len() ==> (#[trigger] behind[i]).0 != name,
    ensures
        listing_without(before.push((name, value)) + behind, name) == before + behind,
        listing_without(before + behind, name) == before + behind,
{
    let one = seq![(name, value)];
    lemma_nothing_filtered(before, name);
    lemma_nothing_filtered(behind, name);
    lemma_without_each(before, behind, name);
    lemma_without_each(before, one, name);
    lemma_without_each(before + one, behind, name);
    lemma_without_itself(name, value);
    assert(before.push((name, value)) =~= before + one);
    assert(before + Seq::<(Seq<char>, T)>::empty() =~= before);
}

/// A name is taken out of two lists in a row by taking it out of each.
proof fn lemma_without_each<T>(
    a: Seq<(Seq<char>, T)>,
    b: Seq<(Seq<char>, T)>,
    name: Seq<char>,
)
    ensures
        listing_without(a + b, name) == listing_without(a, name) + listing_without(b, name),
{
    Seq::filter_distributes_over_add(a, b, |e: (Seq<char>, T)| e.0 != name);
}

/// Nothing is left of a list with one name without that name.
proof fn lemma_without_itself<T>(name: Seq<char>, value: T)
    ensures
        listing_without(seq![(name, value)], name) == Seq::<(Seq<char>, T)>::empty(),
{
    reveal_with_fuel(Seq::filter, 2);
    let one = seq![(name, value)];
    assert(one.drop_last() =~= Seq::empty());
    assert(one.last().0 == name);
}

}
