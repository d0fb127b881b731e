//! The variables of the tree evaluator.
use crate::ast::{EvaluateModel, EvaluateValue};
use vstd::hash_map::StringHashMap;
use vstd::prelude::*;

verus! {

pub struct Environment {
    values: StringHashMap<EvaluateValue>,
}

impl View for Environment {
    type V = Map<Seq<char>, EvaluateModel>;

    closed spec fn view(&self) -> Map<Seq<char>, EvaluateModel> {
        Map::new(|k: Seq<char>| self.values@.contains_key(k), |k: Seq<char>| self.values@[k]@)
    }
}

impl Environment {
    pub fn new() -> (out: Self)
        ensures
            out@ == Map::<Seq<char>, EvaluateModel>::empty(),
    {
        let out = Environment { values: StringHashMap::new() };
        assert(out@ =~= Map::<Seq<char>, EvaluateModel>::empty());
        out
    }

    /// Binds `name` to `object`, whether or not it was bound before.
    pub fn define(&mut self, name: String, object: EvaluateValue)
        ensures
            final(self)@ == old(self)@.insert(name@, object@),
    {
        self.values.insert(name, object);
        assert(self@ =~= old(self)@.insert(name@, object@));
    }

    /// The value bound to `name`, if any.
    pub fn get(&self, name: String) -> (out: Option<&EvaluateValue>)
        ensures
            match out {
                Some(v) => self@.contains_key(name@) && v@ == self@[name@],
                None => !self@.contains_key(name@),
            },
    {
        self.values.get(name.as_str())
    }
}

} // verus!
