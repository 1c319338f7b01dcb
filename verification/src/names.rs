//! Values by their names, without an order.

use vstd::hash_map::StringHashMap;
use vstd::prelude::*;

verus! {

/// Values by their names.
#[verifier::reject_recursive_types(V)]
pub struct NameMap<V> {
    map: StringHashMap<V>,
}

impl<V: DeepView> View for NameMap<V> {
    type V = Map<Seq<char>, V::V>;

    closed spec fn view(&self) -> Map<Seq<char>, V::V> {
        self.map@.map_values(|value: V| value.deep_view())
    }
}

impl<V: DeepView> NameMap<V> {
    /// No name has a value.
    pub fn new() -> (map: NameMap<V>)
        ensures
            map@ == Map::<Seq<char>, V::V>::empty(),
    {
        let map = NameMap { map: StringHashMap::new() };
        assert(map@ =~= Map::empty());
        map
    }

    /// The value of a name.
    pub fn get(&self, name: &str) -> (value: Option<&V>)
        ensures
            match value {
                Some(v) => self@.dom().contains(name@) && v.deep_view() == self@[name@],
                None => !self@.dom().contains(name@),
            },
    {
        self.map.get(name)
    }

    /// Whether a name has a value.
    pub fn contains(&self, name: &str) -> (b: bool)
        ensures
            b == self@.dom().contains(name@),
    {
        self.map.contains_key(name)
    }

    /// Gives a name a value, in the place of the one that it had.
    pub fn insert(&mut self, name: &str, value: V)
        ensures
            final(self)@ == old(self)@.insert(name@, value.deep_view()),
    {
        let ghost before = self@;
        self.map.insert(name.to_owned(), value);
        assert(self@ =~= before.insert(name@, value.deep_view()));
    }

    /// Takes a name and its value away.
    pub fn remove(&mut self, name: &str)
        ensures
            final(self)@ == old(self)@.remove(name@),
    {
        let ghost before = self@;
        self.map.remove(name);
        assert(self@ =~= before.remove(name@));
    }
}

}
