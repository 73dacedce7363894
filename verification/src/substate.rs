//! The persistent substates and the store they live in.
//!
//! The store is an external collaborator named at its interface: a trait
//! whose contracts describe reads and writes over an abstract store value.
//! An in-memory implementation is provided, both as the reference
//! implementation of the contracts and as the backend the tests run on.

use vstd::prelude::*;

use crate::assoc::{AssocMap, DupValue, MapKey};
use crate::bytes::{bytes_eq, clone_bytes};
use crate::container::{BucketV, Vault};
use crate::resource_def::{ResourceDef, ResourceDefV};
use crate::types::{Address, AddressV, Mid, NonFungibleKey, Vid};

verus! {

impl MapKey for Vec<u8> {
    fn key_eq(&self, other: &Self) -> (r: bool)
        ensures
            r == (self@ == other@),
    {
        bytes_eq(self, other)
    }

    fn key_dup(&self) -> (r: Self)
        ensures
            r@ == self@,
    {
        clone_bytes(self)
    }
}

impl DupValue for Vec<u8> {
    fn dup(&self) -> (r: Self)
        ensures
            r@ == self@,
    {
        clone_bytes(self)
    }
}

/// A deployed bundle of guest code.
pub struct Package {
    code: Vec<u8>,
}

impl View for Package {
    type V = Seq<u8>;

    closed spec fn view(&self) -> Seq<u8> {
        self.code@
    }
}

impl Package {
    pub fn new(code: Vec<u8>) -> (r: Self)
        ensures
            r@ == code@,
    {
        Package { code }
    }

    pub fn code(&self) -> (r: &Vec<u8>)
        ensures
            r@ == self@,
    {
        &self.code
    }
}

impl DupValue for Package {
    fn dup(&self) -> (r: Self)
        ensures
            r@ == self@,
    {
        Package { code: clone_bytes(&self.code) }
    }
}

/// The abstract value of a component.
pub struct ComponentV {
    pub package_address: AddressV,
    pub blueprint_name: Seq<char>,
    pub state: Seq<u8>,
}

/// An instantiated blueprint: its package, blueprint name, and encoded state.
pub struct Component {
    package_address: Address,
    blueprint_name: String,
    state: Vec<u8>,
}

impl View for Component {
    type V = ComponentV;

    closed spec fn view(&self) -> ComponentV {
        ComponentV {
            package_address: self.package_address@,
            blueprint_name: self.blueprint_name@,
            state: self.state@,
        }
    }
}

impl Component {
    pub fn new(package_address: Address, blueprint_name: String, state: Vec<u8>) -> (r: Self)
        ensures
            r@ == (ComponentV {
                package_address: package_address@,
                blueprint_name: blueprint_name@,
                state: state@,
            }),
    {
        Component { package_address, blueprint_name, state }
    }

    pub fn package_address(&self) -> (r: Address)
        ensures
            r@ == self@.package_address,
    {
        self.package_address.clone()
    }

    pub fn blueprint_name(&self) -> (r: &String)
        ensures
            r@ == self@.blueprint_name,
    {
        &self.blueprint_name
    }

    pub fn state(&self) -> (r: &Vec<u8>)
        ensures
            r@ == self@.state,
    {
        &self.state
    }

    /// Replaces the encoded state.
    pub fn set_state(&mut self, state: Vec<u8>)
        ensures
            final(self)@ == (ComponentV { state: state@, ..old(self)@ }),
    {
        self.state = state;
    }
}

impl DupValue for Component {
    fn dup(&self) -> (r: Self)
        ensures
            r@ == self@,
    {
        Component {
            package_address: self.package_address.clone(),
            blueprint_name: self.blueprint_name.clone(),
            state: clone_bytes(&self.state),
        }
    }
}

/// A persistent key-to-value mapping owned by a component.
pub struct LazyMap {
    entries: AssocMap<Vec<u8>, Vec<u8>>,
}

impl View for LazyMap {
    type V = Map<Seq<u8>, Seq<u8>>;

    closed spec fn view(&self) -> Map<Seq<u8>, Seq<u8>> {
        self.entries@
    }
}

impl LazyMap {
    pub closed spec fn wf(&self) -> bool {
        self.entries.wf()
    }

    pub fn new() -> (r: Self)
        ensures
            r.wf(),
            r@ == Map::<Seq<u8>, Seq<u8>>::empty(),
    {
        LazyMap { entries: AssocMap::new() }
    }

    pub fn get_entry(&self, key: &Vec<u8>) -> (r: Option<&Vec<u8>>)
        requires
            self.wf(),
        ensures
            match r {
                Some(v) => self@.contains_key(key@) && v@ == self@[key@],
                None => !self@.contains_key(key@),
            },
    {
        self.entries.get(key)
    }

    pub fn set_entry(&mut self, key: Vec<u8>, value: Vec<u8>)
        requires
            old(self).wf(),
        ensures
            final(self).wf(),
            final(self)@ == old(self)@.insert(key@, value@),
    {
        self.entries.insert(key, value);
    }
}

impl LazyMap {
    /// A copy with the same abstract value.
    pub fn dup(&self) -> (r: Self)
        ensures
            r@ == self@,
            r.wf() == self.wf(),
    {
        LazyMap { entries: self.entries.dup() }
    }
}

impl DupValue for LazyMap {
    fn dup(&self) -> (r: Self)
        ensures
            r@ == self@,
    {
        LazyMap::dup(self)
    }
}

/// One non-fungible unit's stored data.
pub struct NonFungible {
    immutable_data: Vec<u8>,
    mutable_data: Vec<u8>,
}

impl View for NonFungible {
    type V = (Seq<u8>, Seq<u8>);

    closed spec fn view(&self) -> (Seq<u8>, Seq<u8>) {
        (self.immutable_data@, self.mutable_data@)
    }
}

impl NonFungible {
    pub fn new(immutable_data: Vec<u8>, mutable_data: Vec<u8>) -> (r: Self)
        ensures
            r@ == (immutable_data@, mutable_data@),
    {
        NonFungible { immutable_data, mutable_data }
    }

    pub fn immutable_data(&self) -> (r: &Vec<u8>)
        ensures
            r@ == self@.0,
    {
        &self.immutable_data
    }

    pub fn mutable_data(&self) -> (r: &Vec<u8>)
        ensures
            r@ == self@.1,
    {
        &self.mutable_data
    }

    pub fn set_mutable_data(&mut self, new_mutable_data: Vec<u8>)
        ensures
            final(self)@ == (old(self)@.0, new_mutable_data@),
    {
        self.mutable_data = new_mutable_data;
    }
}

impl DupValue for NonFungible {
    fn dup(&self) -> (r: Self)
        ensures
            r@ == self@,
    {
        NonFungible {
            immutable_data: clone_bytes(&self.immutable_data),
            mutable_data: clone_bytes(&self.mutable_data),
        }
    }
}

/// The abstract value of a substate store.
pub struct StoreV {
    pub packages: Map<AddressV, Seq<u8>>,
    pub components: Map<AddressV, ComponentV>,
    pub resource_defs: Map<AddressV, ResourceDefV>,
    pub lazy_maps: Map<(AddressV, (Seq<u8>, u32)), Map<Seq<u8>, Seq<u8>>>,
    pub vaults: Map<(AddressV, (Seq<u8>, u32)), BucketV>,
    pub non_fungibles: Map<(AddressV, Seq<u8>), (Seq<u8>, Seq<u8>)>,
    pub epoch: u64,
}

/// The persistent ledger backend, named at its interface.
pub trait SubstateStore: Sized {
    spec fn store_view(&self) -> StoreV;

    spec fn store_inv(&self) -> bool;

    fn get_package(&self, address: &Address) -> (r: Option<Package>)
        requires
            self.store_inv(),
        ensures
            match r {
                Some(p) => self.store_view().packages.contains_key(address@) && p@
                    == self.store_view().packages[address@],
                None => !self.store_view().packages.contains_key(address@),
            },
    ;

    fn put_package(&mut self, address: Address, package: Package)
        requires
            old(self).store_inv(),
        ensures
            final(self).store_inv(),
            final(self).store_view() == (StoreV {
                packages: old(self).store_view().packages.insert(address@, package@),
                ..old(self).store_view()
            }),
    ;

    fn get_component(&self, address: &Address) -> (r: Option<Component>)
        requires
            self.store_inv(),
        ensures
            match r {
                Some(c) => self.store_view().components.contains_key(address@) && c@
                    == self.store_view().components[address@],
                None => !self.store_view().components.contains_key(address@),
            },
    ;

    fn put_component(&mut self, address: Address, component: Component)
        requires
            old(self).store_inv(),
        ensures
            final(self).store_inv(),
            final(self).store_view() == (StoreV {
                components: old(self).store_view().components.insert(address@, component@),
                ..old(self).store_view()
            }),
    ;

    fn get_resource_def(&self, address: &Address) -> (r: Option<ResourceDef>)
        requires
            self.store_inv(),
        ensures
            match r {
                Some(d) => self.store_view().resource_defs.contains_key(address@) && d@
                    == self.store_view().resource_defs[address@] && d.wf(),
                None => !self.store_view().resource_defs.contains_key(address@),
            },
    ;

    fn put_resource_def(&mut self, address: Address, resource_def: ResourceDef)
        requires
            old(self).store_inv(),
            resource_def.wf(),
        ensures
            final(self).store_inv(),
            final(self).store_view() == (StoreV {
                resource_defs: old(self).store_view().resource_defs.insert(
                    address@,
                    resource_def@,
                ),
                ..old(self).store_view()
            }),
    ;

    fn get_lazy_map(&self, component_address: &Address, mid: &Mid) -> (r: Option<LazyMap>)
        requires
            self.store_inv(),
        ensures
            match r {
                Some(m) => self.store_view().lazy_maps.contains_key((component_address@, mid@))
                    && m@ == self.store_view().lazy_maps[(component_address@, mid@)] && m.wf(),
                None => !self.store_view().lazy_maps.contains_key(
                    (component_address@, mid@),
                ),
            },
    ;

    fn put_lazy_map(&mut self, component_address: Address, mid: Mid, lazy_map: LazyMap)
        requires
            old(self).store_inv(),
            lazy_map.wf(),
        ensures
            final(self).store_inv(),
            final(self).store_view() == (StoreV {
                lazy_maps: old(self).store_view().lazy_maps.insert(
                    (component_address@, mid@),
                    lazy_map@,
                ),
                ..old(self).store_view()
            }),
    ;

    fn get_vault(&self, component_address: &Address, vid: &Vid) -> (r: Option<Vault>)
        requires
            self.store_inv(),
        ensures
            match r {
                Some(v) => self.store_view().vaults.contains_key((component_address@, vid@))
                    && v@ == self.store_view().vaults[(component_address@, vid@)] && v.wf(),
                None => !self.store_view().vaults.contains_key((component_address@, vid@)),
            },
    ;

    fn put_vault(&mut self, component_address: Address, vid: Vid, vault: Vault)
        requires
            old(self).store_inv(),
            vault.wf(),
        ensures
            final(self).store_inv(),
            final(self).store_view() == (StoreV {
                vaults: old(self).store_view().vaults.insert(
                    (component_address@, vid@),
                    vault@,
                ),
                ..old(self).store_view()
            }),
    ;

    fn get_non_fungible(&self, resource_address: &Address, key: &NonFungibleKey) -> (r: Option<
        NonFungible,
    >)
        requires
            self.store_inv(),
        ensures
            match r {
                Some(n) => self.store_view().non_fungibles.contains_key(
                    (resource_address@, key@),
                ) && n@ == self.store_view().non_fungibles[(resource_address@, key@)],
                None => !self.store_view().non_fungibles.contains_key(
                    (resource_address@, key@),
                ),
            },
    ;

    fn put_non_fungible(
        &mut self,
        resource_address: Address,
        key: NonFungibleKey,
        non_fungible: NonFungible,
    )
        requires
            old(self).store_inv(),
        ensures
            final(self).store_inv(),
            final(self).store_view() == (StoreV {
                non_fungibles: old(self).store_view().non_fungibles.insert(
                    (resource_address@, key@),
                    non_fungible@,
                ),
                ..old(self).store_view()
            }),
    ;

    fn get_epoch(&self) -> (r: u64)
        requires
            self.store_inv(),
        ensures
            r == self.store_view().epoch,
    ;
}

/// A substate store held wholly in memory.
pub struct InMemorySubstateStore {
    packages: AssocMap<Address, Package>,
    components: AssocMap<Address, Component>,
    resource_defs: AssocMap<Address, ResourceDef>,
    lazy_maps: AssocMap<(Address, Mid), LazyMap>,
    vaults: AssocMap<(Address, Vid), Vault>,
    non_fungibles: AssocMap<(Address, NonFungibleKey), NonFungible>,
    epoch: u64,
}

impl InMemorySubstateStore {
    pub fn new() -> (r: Self)
        ensures
            r.store_inv(),
            r.store_view() == (StoreV {
                packages: Map::empty(),
                components: Map::empty(),
                resource_defs: Map::empty(),
                lazy_maps: Map::empty(),
                vaults: Map::empty(),
                non_fungibles: Map::empty(),
                epoch: 0,
            }),
    {
        InMemorySubstateStore {
            packages: AssocMap::new(),
            components: AssocMap::new(),
            resource_defs: AssocMap::new(),
            lazy_maps: AssocMap::new(),
            vaults: AssocMap::new(),
            non_fungibles: AssocMap::new(),
            epoch: 0,
        }
    }

    pub fn set_epoch(&mut self, epoch: u64)
        requires
            old(self).store_inv(),
        ensures
            final(self).store_inv(),
            final(self).store_view() == (StoreV { epoch, ..old(self).store_view() }),
    {
        self.epoch = epoch;
    }
}

impl SubstateStore for InMemorySubstateStore {
    closed spec fn store_view(&self) -> StoreV {
        StoreV {
            packages: self.packages@,
            components: self.components@,
            resource_defs: self.resource_defs@,
            lazy_maps: self.lazy_maps@,
            vaults: self.vaults@,
            non_fungibles: self.non_fungibles@,
            epoch: self.epoch,
        }
    }

    closed spec fn store_inv(&self) -> bool {
        &&& self.packages.wf()
        &&& self.components.wf()
        &&& self.resource_defs.wf()
        &&& self.lazy_maps.wf()
        &&& self.vaults.wf()
        &&& self.non_fungibles.wf()
        &&& forall|i: int|
            0 <= i < self.resource_defs.entry_seq().len()
                ==> (#[trigger] self.resource_defs.entry_seq()[i].1).wf()
        &&& forall|i: int|
            0 <= i < self.lazy_maps.entry_seq().len()
                ==> (#[trigger] self.lazy_maps.entry_seq()[i].1).wf()
        &&& forall|i: int|
            0 <= i < self.vaults.entry_seq().len() ==> (#[trigger] self.vaults.entry_seq()[
            i].1).wf()
    }

    fn get_package(&self, address: &Address) -> (r: Option<Package>)
    {
        match self.packages.get(address) {
            Some(p) => Some(p.dup()),
            None => None,
        }
    }

    fn put_package(&mut self, address: Address, package: Package)
    {
        self.packages.insert(address, package);
    }

    fn get_component(&self, address: &Address) -> (r: Option<Component>)
    {
        match self.components.get(address) {
            Some(c) => Some(c.dup()),
            None => None,
        }
    }

    fn put_component(&mut self, address: Address, component: Component)
    {
        self.components.insert(address, component);
    }

    fn get_resource_def(&self, address: &Address) -> (r: Option<ResourceDef>)
    {
        match self.resource_defs.get(address) {
            Some(d) => {
                proof {
                    let j = choose|j: int|
                        0 <= j < self.resource_defs.entry_seq().len()
                            && self.resource_defs.entry_seq()[j].1 == *d;
                }
                Some(ResourceDef::dup(d))
            },
            None => None,
        }
    }

    fn put_resource_def(&mut self, address: Address, resource_def: ResourceDef)
    {
        self.resource_defs.insert(address, resource_def);
    }

    fn get_lazy_map(&self, component_address: &Address, mid: &Mid) -> (r: Option<LazyMap>)
    {
        let key = (component_address.key_dup(), mid.key_dup());
        match self.lazy_maps.get(&key) {
            Some(m) => {
                proof {
                    let j = choose|j: int|
                        0 <= j < self.lazy_maps.entry_seq().len()
                            && self.lazy_maps.entry_seq()[j].1 == *m;
                }
                Some(LazyMap::dup(m))
            },
            None => None,
        }
    }

    fn put_lazy_map(&mut self, component_address: Address, mid: Mid, lazy_map: LazyMap)
    {
        self.lazy_maps.insert((component_address, mid), lazy_map);
    }

    fn get_vault(&self, component_address: &Address, vid: &Vid) -> (r: Option<Vault>)
    {
        let key = (component_address.key_dup(), vid.key_dup());
        match self.vaults.get(&key) {
            Some(v) => {
                proof {
                    let j = choose|j: int|
                        0 <= j < self.vaults.entry_seq().len() && self.vaults.entry_seq()[
                        j].1 == *v;
                }
                Some(Vault::dup(v))
            },
            None => None,
        }
    }

    fn put_vault(&mut self, component_address: Address, vid: Vid, vault: Vault)
    {
        self.vaults.insert((component_address, vid), vault);
    }

    fn get_non_fungible(&self, resource_address: &Address, key: &NonFungibleKey) -> (r: Option<
        NonFungible,
    >)
    {
        let k = (resource_address.key_dup(), key.key_dup());
        match self.non_fungibles.get(&k) {
            Some(n) => Some(n.dup()),
            None => None,
        }
    }

    fn put_non_fungible(
        &mut self,
        resource_address: Address,
        key: NonFungibleKey,
        non_fungible: NonFungible,
    )
    {
        self.non_fungibles.insert((resource_address, key), non_fungible);
    }

    fn get_epoch(&self) -> (r: u64)
    {
        self.epoch
    }
}

} // verus!
