//! The environment: a mapping from names to expression values.
//!
//! One global instance lives for a whole session; one ephemeral local
//! instance is created per dispatch, pre-populated with the matcher's
//! bindings. Lookup inside a dispatched body checks the local instance
//! first, then the global one; writes during a dispatch only ever go to the
//! local instance.

use vstd::prelude::*;
use vstd::hash_map::StringHashMap;

use crate::expression::Expression;
use crate::expression::ExprV;
use crate::matcher::Bindings;
use crate::matcher::bindings_view;

verus! {

/// A single scope: names bound to expression values.
pub struct Environment {
    bindings: StringHashMap<Expression>,
}

impl View for Environment {
    type V = Map<Seq<char>, ExprV>;

    closed spec fn view(&self) -> Map<Seq<char>, ExprV> {
        bindings_view(self.bindings)
    }
}

impl Environment {
    /// A fresh, empty scope.
    pub fn new() -> (r: Self)
        ensures
            r@ =~= Map::<Seq<char>, ExprV>::empty(),
    {
        Self { bindings: StringHashMap::new() }
    }

    /// The scope holding exactly the given bindings, as a dispatch builds
    /// its call-local scope from the matcher's output.
    pub fn from_bindings(bindings: Bindings) -> (r: Self)
        ensures
            r@ == bindings_view(bindings),
    {
        Self { bindings }
    }

    /// Binds `name` to `value` in this scope, replacing any previous
    /// binding of the same name.
    pub fn set(&mut self, name: String, value: Expression)
        ensures
            final(self)@ =~= old(self)@.insert(name@, value@),
    {
        let ghost pre = self.bindings@;
        self.bindings.insert(name, value);
    }

    /// Looks `name` up in this scope.
    pub fn get(&self, name: &String) -> (r: Option<&Expression>)
        ensures
            match r {
                Some(v) => self@.contains_key(name@) && v@ == self@[name@],
                None => !self@.contains_key(name@),
            },
    {
        let r = self.bindings.get(name.as_str());
        proof {
            assert(self@.dom() =~= self.bindings@.dom());
        }
        r
    }
}

} // verus!
