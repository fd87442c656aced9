use std::collections::HashMap;
use std::sync::Arc;
use vstd::prelude::*;

verus! {

/// The factories of the application's controllers, each filed under the key of its
/// controller type.
pub struct ControllerRegistry<F> {
    controllers: HashMap<u64, F>,
}

impl<F> View for ControllerRegistry<F> {
    type V = Map<u64, F>;

    closed spec fn view(&self) -> Map<u64, F> {
        self.controllers@
    }
}

impl<F> ControllerRegistry<F> {
    /// A registry without controllers.
    pub fn new() -> (r: Self)
        ensures
            r@ == Map::<u64, F>::empty(),
    {
        ControllerRegistry { controllers: HashMap::new() }
    }

    /// Files `factory` under `key`, replacing an earlier factory of that key.
    pub fn add_controller(&mut self, key: u64, factory: F)
        ensures
            final(self)@ == old(self)@.insert(key, factory),
    {
        broadcast use vstd::std_specs::hash::group_hash_axioms;

        self.controllers.insert(key, factory);
    }

    /// A fresh controller made by the factory filed under `key`, if there is one.
    pub fn get_controller<C>(&self, key: u64) -> (r: Option<Arc<C>>)
        where
            F: Fn() -> C,
        requires
            self@.contains_key(key) ==> self@[key].requires(()),
        ensures
            r is None <==> !self@.contains_key(key),
            r matches Some(c) ==> self@[key].ensures((), *c),
    {
        broadcast use vstd::std_specs::hash::group_hash_axioms;

        match self.controllers.get(&key) {
            Some(factory) => Some(Arc::new(factory())),
            None => None,
        }
    }
}

/// A factory added under a key replaces the one added before under that key and leaves
/// the factories of other keys as they were.
pub proof fn lemma_last_factory_wins<F>(m: Map<u64, F>, key: u64, other: u64, factory: F)
    ensures
        m.insert(key, factory).contains_key(key),
        m.insert(key, factory)[key] == factory,
        other != key ==> (m.insert(key, factory).contains_key(other) <==> m.contains_key(other)),
        other != key && m.contains_key(other) ==> m.insert(key, factory)[other] == m[other],
{
}

} // verus!
