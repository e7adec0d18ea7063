//! Component types and the registry mapping each one to its backend.

use vstd::prelude::*;
use vstd::pervasive::unreached;

use crate::entity::Entity;
use crate::storage::Storage;
use crate::tag_map::agrees_except;
use crate::tag_map::TagMap;

verus! {

/// A value type attachable to entities.  `U` is the closed set of backend
/// variants one registry manages; a component type declares its backend
/// type, its tag within `U`, and the cast between its backend and `U`.
///
/// The casts reproduce type-erased downcasting in checked form: `upcast`
/// erases a backend into a registry entry, `downcast_ref` / `downcast_mut`
/// recover it, and the law `lemma_downcast_upcast` makes a failed downcast
/// through the registry the fatal internal-invariant case, provably
/// unreachable as long as component types sharing a registry choose
/// pairwise-distinct tags.
pub trait Component<U>: Sized {
    /// The backend type this component type is stored in.
    type Storage: Storage<Self>;

    /// The tag identifying this component type within `U`.
    spec fn spec_tag() -> u64;

    fn tag() -> (tag: u64)
        ensures
            tag == Self::spec_tag(),
    ;

    /// What erasing a backend of this component type into an entry yields.
    spec fn spec_upcast(storage: Self::Storage) -> U;

    /// Erases a backend of this component type into a registry entry.
    fn upcast(storage: Self::Storage) -> (entry: U)
        ensures
            entry == Self::spec_upcast(storage),
    ;

    /// The backend a registry entry holds, if the entry is of this
    /// component type.
    spec fn spec_downcast(entry: U) -> Option<Self::Storage>;

    /// Recovers this component type's backend from a registry entry.
    fn downcast_ref(entry: &U) -> (r: Option<&Self::Storage>)
        ensures
            match r {
                Some(storage) => Self::spec_downcast(*entry) == Some(*storage),
                None => Self::spec_downcast(*entry) is None,
            },
    ;

    /// Recovers this component type's backend from a registry entry, for
    /// mutation.
    fn downcast_mut(entry: &mut U) -> (r: Option<&mut Self::Storage>)
        ensures
            match r {
                Some(storage) => Self::spec_downcast(*old(entry)) == Some(*storage)
                    && *final(entry) == Self::spec_upcast(*final(storage)),
                None => Self::spec_downcast(*old(entry)) is None
                    && *final(entry) == *old(entry),
            },
    ;

    /// Law: downcasting an upcast backend gives that backend back.
    proof fn lemma_downcast_upcast(storage: Self::Storage)
        ensures
            Self::spec_downcast(Self::spec_upcast(storage)) == Some(storage),
    ;
}

/// The component registry: a type-indexed map from component type to its
/// backend, creating each backend lazily on first access and reusing it
/// afterwards.
pub struct ComponentManager<U> {
    storages: TagMap<U>,
}

impl<U> ComponentManager<U> {
    /// The registry entries, by tag.
    pub closed spec fn entries(&self) -> Map<u64, U> {
        self.storages@
    }

    pub closed spec fn wf(&self) -> bool {
        self.storages.wf()
    }

    /// Valid typing for `C`: an entry under `C`'s tag, if any, is of `C`'s
    /// backend type.  This holds while no entry exists, is kept by every
    /// access for `C`, and can only be broken by two component types
    /// sharing one tag.
    pub open spec fn entry_ok<C: Component<U>>(&self) -> bool {
        self.entries().contains_key(C::spec_tag())
            ==> C::spec_downcast(self.entries()[C::spec_tag()]) is Some
    }

    /// The backend for `C`, if one was created.
    pub open spec fn spec_storage<C: Component<U>>(&self) -> Option<C::Storage> {
        if self.entries().contains_key(C::spec_tag()) {
            C::spec_downcast(self.entries()[C::spec_tag()])
        } else {
            None
        }
    }

    /// The component of type `C` held for identifier `id`, if any.
    pub open spec fn component_at<C: Component<U>>(&self, id: int) -> Option<C> {
        match self.spec_storage::<C>() {
            Some(storage) => storage.value_at(id),
            None => None,
        }
    }

    pub fn new() -> (manager: Self)
        ensures
            manager.wf(),
            manager.entries() == Map::<u64, U>::empty(),
    {
        ComponentManager { storages: TagMap::new() }
    }

    /// The mutable backend for `C`, created empty if this is the first
    /// access for `C`.
    pub fn write_storage<C: Component<U>>(&mut self) -> (storage: &mut C::Storage)
        requires
            old(self).wf(),
            old(self).entry_ok::<C>(),
        ensures
            final(self).wf(),
            final(self).entry_ok::<C>(),
            match old(self).spec_storage::<C>() {
                Some(prior) => *storage == prior,
                None => forall|id: int| #[trigger] storage.value_at(id) is None,
            },
            final(self).entries()
                == old(self).entries().insert(C::spec_tag(), C::spec_upcast(*final(storage))),
            final(self).spec_storage::<C>() == Some(*final(storage)),
    {
        let tag = C::tag();
        if !self.storages.contains(tag) {
            let fresh = <C::Storage as Storage<C>>::new();
            proof {
                C::lemma_downcast_upcast(fresh);
            }
            self.storages.set(tag, C::upcast(fresh));
        }
        let entry = match self.storages.get_mut(tag) {
            Some(entry) => entry,
            None => unreached(),
        };
        let storage = match C::downcast_mut(entry) {
            Some(storage) => storage,
            None => unreached(),
        };
        proof {
            C::lemma_downcast_upcast(*final(storage));
        }
        storage
    }

    /// The backend for `C`, created empty if this is the first access for
    /// `C`.  Creation mutates the registry even on this read path, so the
    /// receiver is exclusive; the returned view is shared.
    pub fn read_storage<C: Component<U>>(&mut self) -> (storage: &C::Storage)
        requires
            old(self).wf(),
            old(self).entry_ok::<C>(),
        ensures
            final(self).wf(),
            final(self).entry_ok::<C>(),
            match old(self).spec_storage::<C>() {
                Some(prior) => *storage == prior && *final(self) == *old(self),
                None => forall|id: int| #[trigger] storage.value_at(id) is None,
            },
            !old(self).entries().contains_key(C::spec_tag()) ==> final(self).entries()
                == old(self).entries().insert(C::spec_tag(), C::spec_upcast(*storage)),
            final(self).spec_storage::<C>() == Some(*storage),
    {
        let tag = C::tag();
        if !self.storages.contains(tag) {
            let fresh = <C::Storage as Storage<C>>::new();
            proof {
                C::lemma_downcast_upcast(fresh);
            }
            self.storages.set(tag, C::upcast(fresh));
        }
        let storage = match self.storages.get(tag) {
            Some(entry) => match C::downcast_ref(entry) {
                Some(storage) => storage,
                None => unreached(),
            },
            None => unreached(),
        };
        proof {
            C::lemma_downcast_upcast(*storage);
        }
        storage
    }

    /// The component of type `C` held for `entity`, if any; absence is a
    /// normal outcome, not an error.
    pub fn get<C: Component<U>>(&mut self, entity: &Entity) -> (r: Option<&C>)
        requires
            old(self).wf(),
            old(self).entry_ok::<C>(),
        ensures
            final(self).wf(),
            final(self).entry_ok::<C>(),
            agrees_except(final(self).entries(), old(self).entries(), C::spec_tag()),
            forall|id: int| #[trigger] final(self).component_at::<C>(id)
                == old(self).component_at::<C>(id),
            match r {
                Some(component) => old(self).component_at::<C>(entity.id as int)
                    == Some(*component),
                None => old(self).component_at::<C>(entity.id as int) is None,
            },
    {
        let storage = self.read_storage::<C>();
        storage.read(entity)
    }

    /// The mutable component of type `C` held for `entity`, if any.
    pub fn get_mut<C: Component<U>>(&mut self, entity: &Entity) -> (r: Option<&mut C>)
        requires
            old(self).wf(),
            old(self).entry_ok::<C>(),
        ensures
            final(self).wf(),
            final(self).entry_ok::<C>(),
            agrees_except(final(self).entries(), old(self).entries(), C::spec_tag()),
            match r {
                Some(component) => {
                    &&& old(self).component_at::<C>(entity.id as int) == Some(*component)
                    &&& final(self).component_at::<C>(entity.id as int)
                        == Some(*final(component))
                    &&& forall|id: int| id != entity.id as int
                        ==> #[trigger] final(self).component_at::<C>(id)
                            == old(self).component_at::<C>(id)
                },
                None => {
                    &&& old(self).component_at::<C>(entity.id as int) is None
                    &&& forall|id: int| #[trigger] final(self).component_at::<C>(id)
                        == old(self).component_at::<C>(id)
                },
            },
    {
        let storage = self.write_storage::<C>();
        storage.write(entity)
    }
}

/// Law: a stored backend is read back intact.  If the entry under `C`'s
/// tag holds the erased backend `storage`, the registry's view of `C` is
/// exactly that backend, so a component inserted for an entity is what a
/// later read of the same entity returns.
pub proof fn lemma_stored_component_visible<U, C: Component<U>>(
    manager: ComponentManager<U>,
    storage: C::Storage,
    id: int,
)
    requires
        manager.entries().contains_key(C::spec_tag()),
        manager.entries()[C::spec_tag()] == C::spec_upcast(storage),
    ensures
        manager.spec_storage::<C>() == Some(storage),
        manager.component_at::<C>(id) == storage.value_at(id),
{
    C::lemma_downcast_upcast(storage);
}

/// Law: a registry with no entries holds no component for any entity.
pub proof fn lemma_empty_manager_absent<U, C: Component<U>>(manager: ComponentManager<U>, id: int)
    requires
        manager.entries() == Map::<u64, U>::empty(),
    ensures
        manager.component_at::<C>(id) is None,
{
}

/// Law: component types with distinct tags never interfere.  A registry
/// change confined to `C1`'s tag leaves every component of type `C2`
/// unchanged.
pub proof fn lemma_component_types_independent<U, C1: Component<U>, C2: Component<U>>(
    before: ComponentManager<U>,
    after: ComponentManager<U>,
    id: int,
)
    requires
        C1::spec_tag() != C2::spec_tag(),
        agrees_except(after.entries(), before.entries(), C1::spec_tag()),
    ensures
        after.component_at::<C2>(id) == before.component_at::<C2>(id),
{
    assert(after.entries().contains_key(C2::spec_tag()) == before.entries().contains_key(
        C2::spec_tag(),
    ));
}

} // verus!
