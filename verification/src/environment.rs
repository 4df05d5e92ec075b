//! The shared name environment: one flat, mutable name-to-value mapping
//! per run. There is no lexical scoping and no stack of frames; a
//! procedure reads and writes the same mapping as its caller, and
//! rebinding an existing name is free.

use vstd::hash_map::StringHashMap;
use vstd::prelude::*;

use crate::types::{val_model, ValS, VarV};

verus! {

/// The environment: a single name-to-value mapping.
pub struct Environment {
    pub vars: StringHashMap<VarV>,
}

/// The model of an environment: the map from names, as character
/// sequences, to the models of their bound values.
pub open spec fn env_model(e: Environment) -> Map<Seq<char>, ValS> {
    e.vars@.map_values(|v: VarV| val_model(v))
}

impl Environment {
    /// A fresh environment binding nothing.
    pub fn new() -> (r: Self)
        ensures
            env_model(r) == Map::<Seq<char>, ValS>::empty(),
    {
        let r = Environment { vars: StringHashMap::new() };
        proof {
            assert(env_model(r) =~= Map::<Seq<char>, ValS>::empty());
        }
        r
    }

    /// Binds a value under a name, first binding or rebinding alike.
    pub fn construct_element(&mut self, name: String, value: VarV)
        ensures
            env_model(*final(self)) == env_model(*old(self)).insert(name@, val_model(value)),
    {
        let ghost v = val_model(value);
        self.vars.insert(name, value);
        proof {
            assert(env_model(*self) =~= env_model(*old(self)).insert(name@, v));
        }
    }

    /// Rebinds a name; in this dialect rebinding is free, so assignment
    /// and first definition coincide.
    pub fn assign_var(&mut self, name: String, value: VarV)
        ensures
            env_model(*final(self)) == env_model(*old(self)).insert(name@, val_model(value)),
    {
        self.construct_element(name, value);
    }

    /// Looks a name up: the bound value, or nothing when the name is
    /// unbound.
    pub fn look_up_element(&self, name: &str) -> (r: Option<&VarV>)
        ensures
            match r {
                Some(v) => env_model(*self).contains_key(name@) && val_model(*v) == env_model(
                    *self,
                )[name@],
                None => !env_model(*self).contains_key(name@),
            },
    {
        self.vars.get(name)
    }

    /// Whether a name is bound.
    pub fn contains_name(&self, name: &str) -> (r: bool)
        ensures
            r == env_model(*self).contains_key(name@),
    {
        self.vars.contains_key(name)
    }
}

} // verus!
