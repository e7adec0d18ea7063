//! Storage core of an entity-component-resource runtime.
//!
//! Typed data ("components") is attached to integer-identified entities, and
//! typed singleton data ("resources") to the simulation as a whole.  Each
//! component type picks its own storage backend through the [`Storage`]
//! contract, and the registries hold those heterogeneous backends behind a
//! verified tagged-variant map with a checked cast back to the concrete type.

use vstd::prelude::*;

pub mod component;
pub mod entity;
pub mod resource;
pub mod sample;
pub mod sparse_vec_storage;
pub mod storage;
pub mod system;
pub mod tag_map;

use tag_map::agrees_except;

pub use component::Component;
pub use component::ComponentManager;
pub use entity::Entity;
pub use entity::EntityManager;
pub use resource::Resource;
pub use resource::ResourceError;
pub use resource::ResourceManager;
pub use sparse_vec_storage::SparseVecStorage;
pub use storage::Storage;
pub use system::System;

verus! {

/// The composition root: owns the entity allocator, the component registry
/// and the resource registry, and is the sole entry point collaborators use
/// to reach component and resource state.  `U` and `V` are the registries'
/// backend-variant and resource-variant sets.
pub struct World<U, V> {
    pub components: ComponentManager<U>,
    pub entities: EntityManager,
    pub resources: ResourceManager<V>,
}

impl<U, V> World<U, V> {
    pub open spec fn wf(&self) -> bool {
        &&& self.components.wf()
        &&& self.entities.wf()
        &&& self.resources.wf()
    }

    pub fn new() -> (world: Self)
        ensures
            world.wf(),
            world.components.entries() == Map::<u64, U>::empty(),
            world.entities.count() == 0,
            world.entities.ids() == Seq::<usize>::empty(),
            world.resources.entries() == Map::<u64, V>::empty(),
    {
        World {
            components: ComponentManager::new(),
            entities: EntityManager::new(),
            resources: ResourceManager::new(),
        }
    }

    /// Stores `resource`, replacing any prior value of its type; the other
    /// managers are untouched.
    pub fn insert_resource<R: Resource<V>>(&mut self, resource: R)
        requires
            old(self).wf(),
        ensures
            final(self).wf(),
            final(self).resources.entry_ok::<R>(),
            final(self).resources.entries() == old(self).resources.entries().insert(
                R::spec_tag(),
                R::spec_upcast(resource),
            ),
            final(self).resources.spec_resource::<R>() == Some(resource),
            agrees_except(
                final(self).resources.entries(),
                old(self).resources.entries(),
                R::spec_tag(),
            ),
            final(self).components == old(self).components,
            final(self).entities == old(self).entities,
    {
        self.resources.insert(resource);
    }

    /// A view of the stored resource of type `R`; fails with
    /// [`ResourceError::NotFound`] exactly when no value of type `R` was
    /// ever inserted.
    pub fn read_resource<R: Resource<V>>(&self) -> (r: Result<&R, ResourceError>)
        requires
            self.wf(),
            self.resources.entry_ok::<R>(),
        ensures
            match r {
                Ok(resource) => self.resources.spec_resource::<R>() == Some(*resource),
                Err(e) => self.resources.spec_resource::<R>() is None && e
                    == ResourceError::NotFound,
            },
    {
        self.resources.read::<R>()
    }

    /// A mutable view of the stored resource of type `R`, with the same
    /// lookup and failure policy as `read_resource`.
    pub fn write_resource<R: Resource<V>>(&mut self) -> (r: Result<&mut R, ResourceError>)
        requires
            old(self).wf(),
            old(self).resources.entry_ok::<R>(),
        ensures
            final(self).components == old(self).components,
            final(self).entities == old(self).entities,
            match r {
                Ok(resource) => {
                    &&& old(self).resources.spec_resource::<R>() == Some(*resource)
                    &&& final(self).wf()
                    &&& final(self).resources.entry_ok::<R>()
                    &&& final(self).resources.entries() == old(self).resources.entries().insert(
                        R::spec_tag(),
                        R::spec_upcast(*final(resource)),
                    )
                    &&& final(self).resources.spec_resource::<R>() == Some(*final(resource))
                    &&& agrees_except(
                        final(self).resources.entries(),
                        old(self).resources.entries(),
                        R::spec_tag(),
                    )
                },
                Err(e) => {
                    &&& *final(self) == *old(self)
                    &&& old(self).resources.spec_resource::<R>() is None
                    &&& e == ResourceError::NotFound
                },
            },
    {
        self.resources.write::<R>()
    }
}

} // verus!
