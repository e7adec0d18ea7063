//! The contract every concrete component storage backend satisfies.

use vstd::prelude::*;

use crate::entity::Entity;

verus! {

/// The operations every backend supports for one component type `C`, so
/// that the registry can stay backend-agnostic.  A backend's abstract state
/// is, for every identifier, the component currently held for it, if any.
pub trait Storage<C>: Sized {
    /// The component associated with identifier `id`, if any.
    spec fn value_at(&self, id: int) -> Option<C>;

    /// An empty backend; used by the registry for lazy instantiation.
    fn new() -> (storage: Self)
        ensures
            forall|id: int| #[trigger] storage.value_at(id) is None,
    ;

    /// Associates `component` with `entity`, overwriting any prior
    /// association for that entity and keeping every other association.
    /// Growing past the machine's index range is treated as fatal and
    /// excluded here.
    fn insert(&mut self, entity: &Entity, component: C)
        requires
            entity.id < usize::MAX,
        ensures
            final(self).value_at(entity.id as int) == Some(component),
            forall|id: int| id != entity.id as int ==> #[trigger] final(self).value_at(id)
                == old(self).value_at(id),
    ;

    /// A view of the component associated with `entity`, or absence if that
    /// entity holds none; never fails on an out-of-range identifier.
    fn read(&self, entity: &Entity) -> (r: Option<&C>)
        ensures
            match r {
                Some(component) => self.value_at(entity.id as int) == Some(*component),
                None => self.value_at(entity.id as int) is None,
            },
    ;

    /// A mutable view of the component associated with `entity`, with the
    /// same presence semantics as `read`.
    fn write(&mut self, entity: &Entity) -> (r: Option<&mut C>)
        ensures
            match r {
                Some(component) => old(self).value_at(entity.id as int) == Some(*component)
                    && final(self).value_at(entity.id as int) == Some(*final(component))
                    && forall|id: int| id != entity.id as int
                        ==> #[trigger] final(self).value_at(id) == old(self).value_at(id),
                None => old(self).value_at(entity.id as int) is None
                    && forall|id: int| #[trigger] final(self).value_at(id)
                        == old(self).value_at(id),
            },
    ;
}

} // verus!
