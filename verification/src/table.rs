//! The table of global variables: a map from names to values.
use crate::values::{GenericValue, ValueModel};
use vstd::hash_map::StringHashMap;
use vstd::prelude::*;

verus! {

pub struct Table {
    container: StringHashMap<GenericValue>,
}

impl View for Table {
    type V = Map<Seq<char>, ValueModel>;

    closed spec fn view(&self) -> Map<Seq<char>, ValueModel> {
        Map::new(
            |k: Seq<char>| self.container@.contains_key(k),
            |k: Seq<char>| self.container@[k]@,
        )
    }
}

impl Table {
    pub fn new() -> (out: Table)
        ensures
            out@ == Map::<Seq<char>, ValueModel>::empty(),
    {
        let out = Table { container: StringHashMap::new() };
        assert(out@ =~= Map::<Seq<char>, ValueModel>::empty());
        out
    }

    /// Binds `key` to `value`, whether or not it was bound before, and tells
    /// whether the name is new.
    pub fn set(&mut self, key: String, value: GenericValue) -> (fresh: bool)
        ensures
            final(self)@ == old(self)@.insert(key@, value@),
            fresh == !old(self)@.contains_key(key@),
    {
        let fresh = !self.container.contains_key(key.as_str());
        self.container.insert(key, value);
        assert(self@ =~= old(self)@.insert(key@, value@));
        fresh
    }

    /// The value bound to `key`, if any.
    pub fn get(&self, key: &str) -> (out: Option<&GenericValue>)
        ensures
            match out {
                Some(v) => self@.contains_key(key@) && v@ == self@[key@],
                None => !self@.contains_key(key@),
            },
    {
        self.container.get(key)
    }

    /// How many names are bound.
    pub fn len(&self) -> (out: usize)
        ensures
            out == self@.len(),
    {
        assert(self@.dom() =~= self.container@.dom());
        self.container.len()
    }

    /// Removes the binding of `key` and tells whether there was one.
    pub fn delete(&mut self, key: &str) -> (found: bool)
        ensures
            final(self)@ == old(self)@.remove(key@),
            found == old(self)@.contains_key(key@),
    {
        let found = self.container.contains_key(key);
        self.container.remove(key);
        assert(self@ =~= old(self)@.remove(key@));
        found
    }
}

impl Default for Table {
    fn default() -> (out: Self)
        ensures
            out@ == Map::<Seq<char>, ValueModel>::empty(),
    {
        Table::new()
    }
}

} // verus!
