//! The interface of logic run against the world.

use vstd::prelude::*;

use crate::World;

verus! {

/// Logic run against the world each tick: a pure consumer of the storage
/// registries that contributes no storage behaviour of its own.
pub trait System<U, V> {
    /// One-time setup before the first run; does nothing by default.
    fn init(&mut self, _world: &mut World<U, V>) {
    }

    /// One tick of this system's logic.
    fn run(&mut self, world: &mut World<U, V>);
}

} // verus!
