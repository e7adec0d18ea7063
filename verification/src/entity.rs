//! Entity identifiers and their allocator.

use vstd::prelude::*;

verus! {

/// An opaque handle for one entity: a non-negative index issued by an
/// [`EntityManager`].
#[derive(Clone, Copy, Debug, PartialEq, Eq, Structural)]
pub struct Entity {
    pub id: usize,
}

/// Issues entity identifiers in strictly increasing order, starting at 0.
/// An identifier is never reused within one manager's lifetime.
pub struct EntityManager {
    current_id: usize,
    issued: Ghost<Seq<usize>>,
}

impl EntityManager {
    /// The identifiers issued so far, in order of allocation.
    pub closed spec fn ids(&self) -> Seq<usize> {
        self.issued@
    }

    /// How many identifiers have been issued.
    pub closed spec fn count(&self) -> nat {
        self.current_id as nat
    }

    /// Valid state: the i-th identifier ever issued is exactly i.
    pub open spec fn wf(&self) -> bool {
        &&& self.ids().len() == self.count()
        &&& forall|i: int| 0 <= i < self.ids().len() ==> self.ids()[i] == i
    }

    pub fn new() -> (manager: Self)
        ensures
            manager.wf(),
            manager.count() == 0,
            manager.ids() == Seq::<usize>::empty(),
    {
        Self { current_id: 0, issued: Ghost(Seq::empty()) }
    }

    /// Hands out the next identifier and advances the internal counter.
    /// Exhausting the counter's range is treated as fatal and excluded here.
    pub fn next_entity(&mut self) -> (entity: Entity)
        requires
            old(self).wf(),
            old(self).count() < usize::MAX,
        ensures
            final(self).wf(),
            entity.id == old(self).count(),
            final(self).count() == old(self).count() + 1,
            final(self).ids() == old(self).ids().push(entity.id),
    {
        let entity = Entity { id: self.current_id };
        self.current_id = self.current_id + 1;
        self.issued = Ghost(self.issued@.push(entity.id));
        entity
    }
}

/// Law: identifiers allocated from one manager are pairwise distinct, and
/// they increase in order of allocation, starting at 0.
pub proof fn lemma_entity_ids_unique(manager: EntityManager, i: int, j: int)
    requires
        manager.wf(),
        0 <= i < manager.ids().len(),
        0 <= j < manager.ids().len(),
        i != j,
    ensures
        manager.ids()[i] != manager.ids()[j],
        i < j ==> manager.ids()[i] < manager.ids()[j],
        manager.ids()[i] == i,
{
}

} // verus!
