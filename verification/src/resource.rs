//! Resources: singleton values scoped to the whole simulation, and their
//! registry.

use vstd::prelude::*;
use vstd::pervasive::unreached;

use crate::tag_map::agrees_except;
use crate::tag_map::TagMap;

verus! {

/// Why a resource access failed.  Reading or writing a resource type that
/// was never inserted surfaces this immediately instead of materializing a
/// default: a missing resource is a provisioning mistake.
#[derive(Clone, Copy, Debug, PartialEq, Eq, Structural)]
pub enum ResourceError {
    NotFound,
}

/// A singleton value type.  `V` is the closed set of resource variants one
/// registry manages; as with components, a resource type declares its tag
/// within `V` and the checked cast between itself and `V`, with
/// `lemma_downcast_upcast` making a failed downcast through the registry
/// provably unreachable.
pub trait Resource<V>: Sized {
    /// The tag identifying this resource type within `V`.
    spec fn spec_tag() -> u64;

    fn tag() -> (tag: u64)
        ensures
            tag == Self::spec_tag(),
    ;

    /// What erasing a value of this resource type into an entry yields.
    spec fn spec_upcast(resource: Self) -> V;

    /// Erases a value of this resource type into a registry entry.
    fn upcast(resource: Self) -> (entry: V)
        ensures
            entry == Self::spec_upcast(resource),
    ;

    /// The value a registry entry holds, if the entry is of this resource
    /// type.
    spec fn spec_downcast(entry: V) -> Option<Self>;

    /// Recovers a value of this resource type from a registry entry.
    fn downcast_ref(entry: &V) -> (r: Option<&Self>)
        ensures
            match r {
                Some(resource) => Self::spec_downcast(*entry) == Some(*resource),
                None => Self::spec_downcast(*entry) is None,
            },
    ;

    /// Recovers a value of this resource type from a registry entry, for
    /// mutation.
    fn downcast_mut(entry: &mut V) -> (r: Option<&mut Self>)
        ensures
            match r {
                Some(resource) => Self::spec_downcast(*old(entry)) == Some(*resource)
                    && *final(entry) == Self::spec_upcast(*final(resource)),
                None => Self::spec_downcast(*old(entry)) is None
                    && *final(entry) == *old(entry),
            },
    ;

    /// Law: downcasting an upcast value gives that value back.
    proof fn lemma_downcast_upcast(resource: Self)
        ensures
            Self::spec_downcast(Self::spec_upcast(resource)) == Some(resource),
    ;
}

/// The resource registry: a type-indexed map from resource type directly to
/// its boxed-in-`V` singleton value.  Unlike the component registry it
/// never creates an entry lazily: a read or write of a type never inserted
/// fails.
pub struct ResourceManager<V> {
    storages: TagMap<V>,
}

impl<V> ResourceManager<V> {
    /// The registry entries, by tag.
    pub closed spec fn entries(&self) -> Map<u64, V> {
        self.storages@
    }

    pub closed spec fn wf(&self) -> bool {
        self.storages.wf()
    }

    /// Valid typing for `R`: an entry under `R`'s tag, if any, is of `R`'s
    /// type.  It holds while no entry exists and is restored by every
    /// insertion for `R`; it can only be broken by two resource types
    /// sharing one tag.
    pub open spec fn entry_ok<R: Resource<V>>(&self) -> bool {
        self.entries().contains_key(R::spec_tag())
            ==> R::spec_downcast(self.entries()[R::spec_tag()]) is Some
    }

    /// The stored value of type `R`, if one was inserted.
    pub open spec fn spec_resource<R: Resource<V>>(&self) -> Option<R> {
        if self.entries().contains_key(R::spec_tag()) {
            R::spec_downcast(self.entries()[R::spec_tag()])
        } else {
            None
        }
    }

    pub fn new() -> (manager: Self)
        ensures
            manager.wf(),
            manager.entries() == Map::<u64, V>::empty(),
    {
        ResourceManager { storages: TagMap::new() }
    }

    /// Stores `resource`, replacing any prior value of type `R`; entries of
    /// every other tag are untouched.
    pub fn insert<R: Resource<V>>(&mut self, resource: R)
        requires
            old(self).wf(),
        ensures
            final(self).wf(),
            final(self).entry_ok::<R>(),
            final(self).entries()
                == old(self).entries().insert(R::spec_tag(), R::spec_upcast(resource)),
            final(self).spec_resource::<R>() == Some(resource),
            agrees_except(final(self).entries(), old(self).entries(), R::spec_tag()),
    {
        proof {
            R::lemma_downcast_upcast(resource);
        }
        let tag = R::tag();
        self.storages.set(tag, R::upcast(resource));
    }

    /// A view of the stored value of type `R`; fails with
    /// [`ResourceError::NotFound`] exactly when no value of type `R` was
    /// ever inserted.
    pub fn read<R: Resource<V>>(&self) -> (r: Result<&R, ResourceError>)
        requires
            self.wf(),
            self.entry_ok::<R>(),
        ensures
            match r {
                Ok(resource) => self.spec_resource::<R>() == Some(*resource),
                Err(e) => self.spec_resource::<R>() is None && e == ResourceError::NotFound,
            },
    {
        let tag = R::tag();
        match self.storages.get(tag) {
            Some(entry) => match R::downcast_ref(entry) {
                Some(resource) => Ok(resource),
                None => unreached(),
            },
            None => Err(ResourceError::NotFound),
        }
    }

    /// A mutable view of the stored value of type `R`, with the same
    /// lookup and failure policy as `read`.
    pub fn write<R: Resource<V>>(&mut self) -> (r: Result<&mut R, ResourceError>)
        requires
            old(self).wf(),
            old(self).entry_ok::<R>(),
        ensures
            match r {
                Ok(resource) => {
                    &&& old(self).spec_resource::<R>() == Some(*resource)
                    &&& final(self).wf()
                    &&& final(self).entry_ok::<R>()
                    &&& final(self).entries()
                        == old(self).entries().insert(R::spec_tag(), R::spec_upcast(*final(resource)))
                    &&& final(self).spec_resource::<R>() == Some(*final(resource))
                    &&& agrees_except(final(self).entries(), old(self).entries(), R::spec_tag())
                },
                Err(e) => {
                    &&& *final(self) == *old(self)
                    &&& old(self).spec_resource::<R>() is None
                    &&& e == ResourceError::NotFound
                },
            },
    {
        let tag = R::tag();
        let entry = match self.storages.get_mut(tag) {
            Some(entry) => entry,
            None => {
                return Err(ResourceError::NotFound);
            },
        };
        match R::downcast_mut(entry) {
            Some(resource) => {
                proof {
                    R::lemma_downcast_upcast(*final(resource));
                }
                Ok(resource)
            },
            None => unreached(),
        }
    }
}

} // verus!
