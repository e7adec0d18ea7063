//! The reference storage backend: a growable sparse vector of slots.

use vstd::prelude::*;

use crate::entity::Entity;
use crate::storage::Storage;

verus! {

/// A backend trading memory density for constant-time access: slot `id`
/// holds the component of entity `id`, identifiers at or beyond the current
/// length are absent, and an insertion past the end grows the vector with
/// explicit absent slots.
pub struct SparseVecStorage<C> {
    slots: Vec<Option<C>>,
}

impl<C> View for SparseVecStorage<C> {
    type V = Seq<Option<C>>;

    closed spec fn view(&self) -> Seq<Option<C>> {
        self.slots@
    }
}

impl<C> SparseVecStorage<C> {
    /// The number of slots allocated so far: zero for a fresh backend, and
    /// one more than the highest identifier ever inserted afterwards.
    pub fn len(&self) -> (n: usize)
        ensures
            n == self@.len(),
    {
        self.slots.len()
    }
}

impl<C> Storage<C> for SparseVecStorage<C> {
    open spec fn value_at(&self, id: int) -> Option<C> {
        if 0 <= id < self@.len() {
            self@[id]
        } else {
            None
        }
    }

    fn new() -> (storage: Self)
        ensures
            storage@ == Seq::<Option<C>>::empty(),
    {
        SparseVecStorage { slots: Vec::new() }
    }

    fn insert(&mut self, entity: &Entity, component: C)
        ensures
            final(self)@.len() == if entity.id as int >= old(self)@.len() {
                entity.id + 1
            } else {
                old(self)@.len() as int
            },
            final(self)@[entity.id as int] == Some(component),
    {
        while self.slots.len() <= entity.id
            invariant
                entity.id < usize::MAX,
                old(self)@.len() <= self.slots@.len(),
                self.slots@.len() == old(self)@.len() || (old(self)@.len() <= entity.id as int
                    && self.slots@.len() <= entity.id + 1),
                forall|k: int| 0 <= k < old(self)@.len() ==> self.slots@[k] == old(self)@[k],
                forall|k: int| old(self)@.len() <= k < self.slots@.len()
                    ==> self.slots@[k] is None,
            decreases entity.id + 1 - self.slots@.len(),
        {
            self.slots.push(None);
        }
        self.slots[entity.id] = Some(component);
    }

    fn read(&self, entity: &Entity) -> (r: Option<&C>) {
        if entity.id < self.slots.len() {
            match &self.slots[entity.id] {
                Some(component) => Some(component),
                None => None,
            }
        } else {
            None
        }
    }

    fn write(&mut self, entity: &Entity) -> (r: Option<&mut C>) {
        if entity.id < self.slots.len() {
            let ghost snapshot = self.slots@;
            let slot = &mut self.slots[entity.id];
            let r = slot.as_mut();
            proof {
                if snapshot[entity.id as int] is None {
                    assert(snapshot.update(entity.id as int, snapshot[entity.id as int])
                        =~= snapshot);
                }
            }
            r
        } else {
            None
        }
    }
}

} // verus!
