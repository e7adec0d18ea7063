//! Sample component and resource types: the registry's cast laws shown
//! implementable, and ready-made subjects for the test suite.

use vstd::prelude::*;

use crate::component::Component;
use crate::resource::Resource;
use crate::sparse_vec_storage::SparseVecStorage;

verus! {

/// A sample component: a named color.
#[derive(Clone, Debug, PartialEq, Eq)]
pub struct Color {
    pub name: String,
}

/// A sample component: a name label.
#[derive(Clone, Debug, PartialEq, Eq)]
pub struct Name {
    pub name: String,
}

/// The backend variants of a component registry managing `Color` and
/// `Name`, both in sparse-vector backends.
pub enum ColorNameStorages {
    Colors(SparseVecStorage<Color>),
    Names(SparseVecStorage<Name>),
}

impl Component<ColorNameStorages> for Color {
    type Storage = SparseVecStorage<Color>;

    open spec fn spec_tag() -> u64 {
        0
    }

    fn tag() -> u64 {
        0
    }

    open spec fn spec_upcast(storage: SparseVecStorage<Color>) -> ColorNameStorages {
        ColorNameStorages::Colors(storage)
    }

    fn upcast(storage: SparseVecStorage<Color>) -> ColorNameStorages {
        ColorNameStorages::Colors(storage)
    }

    open spec fn spec_downcast(entry: ColorNameStorages) -> Option<SparseVecStorage<Color>> {
        match entry {
            ColorNameStorages::Colors(storage) => Some(storage),
            _ => None,
        }
    }

    fn downcast_ref(entry: &ColorNameStorages) -> Option<&SparseVecStorage<Color>> {
        match entry {
            ColorNameStorages::Colors(storage) => Some(storage),
            _ => None,
        }
    }

    fn downcast_mut(entry: &mut ColorNameStorages) -> Option<&mut SparseVecStorage<Color>> {
        match entry {
            ColorNameStorages::Colors(storage) => Some(storage),
            _ => None,
        }
    }

    proof fn lemma_downcast_upcast(storage: SparseVecStorage<Color>) {
    }
}

impl Component<ColorNameStorages> for Name {
    type Storage = SparseVecStorage<Name>;

    open spec fn spec_tag() -> u64 {
        1
    }

    fn tag() -> u64 {
        1
    }

    open spec fn spec_upcast(storage: SparseVecStorage<Name>) -> ColorNameStorages {
        ColorNameStorages::Names(storage)
    }

    fn upcast(storage: SparseVecStorage<Name>) -> ColorNameStorages {
        ColorNameStorages::Names(storage)
    }

    open spec fn spec_downcast(entry: ColorNameStorages) -> Option<SparseVecStorage<Name>> {
        match entry {
            ColorNameStorages::Names(storage) => Some(storage),
            _ => None,
        }
    }

    fn downcast_ref(entry: &ColorNameStorages) -> Option<&SparseVecStorage<Name>> {
        match entry {
            ColorNameStorages::Names(storage) => Some(storage),
            _ => None,
        }
    }

    fn downcast_mut(entry: &mut ColorNameStorages) -> Option<&mut SparseVecStorage<Name>> {
        match entry {
            ColorNameStorages::Names(storage) => Some(storage),
            _ => None,
        }
    }

    proof fn lemma_downcast_upcast(storage: SparseVecStorage<Name>) {
    }
}

/// A sample resource: a configuration value with one capacity field.
#[derive(Clone, Copy, Debug, PartialEq, Eq, Structural)]
pub struct Config {
    pub max: u64,
}

/// The resource variants of a resource registry managing `Config`.
pub enum ConfigResources {
    Config(Config),
}

impl Resource<ConfigResources> for Config {
    open spec fn spec_tag() -> u64 {
        0
    }

    fn tag() -> u64 {
        0
    }

    open spec fn spec_upcast(resource: Config) -> ConfigResources {
        ConfigResources::Config(resource)
    }

    fn upcast(resource: Config) -> ConfigResources {
        ConfigResources::Config(resource)
    }

    open spec fn spec_downcast(entry: ConfigResources) -> Option<Config> {
        match entry {
            ConfigResources::Config(resource) => Some(resource),
        }
    }

    fn downcast_ref(entry: &ConfigResources) -> Option<&Config> {
        match entry {
            ConfigResources::Config(resource) => Some(resource),
        }
    }

    fn downcast_mut(entry: &mut ConfigResources) -> Option<&mut Config> {
        match entry {
            ConfigResources::Config(resource) => Some(resource),
        }
    }

    proof fn lemma_downcast_upcast(resource: Config) {
    }
}

} // verus!
