//! The transactional write-ahead buffer over the substate store.
//!
//! A track owns the store for the span of one transaction.  Reads come
//! through a cache, writes stage in the cache and mark the key updated, and
//! `commit` forwards exactly the updated entries to the store.  The abstract
//! state a reader sees — the store overlaid with the staged writes — never
//! changes on a read.

use vstd::prelude::*;

use crate::assoc::{AssocMap, AssocSet, MapKey};
use crate::container::{BucketV, Vault};
use crate::process::ProcessV;
use crate::container::Bucket;
use crate::id_allocator::{derived_body, derived_uuid, IdAllocator, IdSpace};
use crate::process::Process;
use crate::resource_def::{ResourceType, Supply, SupplyV};
use crate::resource_def::{ResourceDef, ResourceDefError, ResourceDefV};
use crate::substate::{Component, ComponentV, LazyMap, NonFungible, Package, StoreV,
    SubstateStore};
use crate::types::{Address, AddressV, Bid, EcdsaPublicKey, LogLevel, Mid, NonFungibleKey, Rid,
    Vid, H256};

verus! {

/// An error from a track-level operation.
#[derive(Debug, Clone, PartialEq, Eq, Structural)]
pub enum TrackError {
    ResourceDefNotFound,
    NonFungibleNotFound,
    NonFungibleAlreadyExists,
    ResourceError(ResourceDefError),
}

/// The set of non-fungible keys standing for the transaction signers.
pub open spec fn signer_key_set(signers: Seq<Seq<u8>>) -> Set<Seq<u8>> {
    Set::new(|k: Seq<u8>| signers.contains(k))
}

/// Builds the key set of the virtual signature bucket.
fn signature_keys(signers: &Vec<EcdsaPublicKey>) -> (r: AssocSet<NonFungibleKey>)
    ensures
        r.wf(),
        r@ == signer_key_set(signers@.map(|i: int, k: EcdsaPublicKey| k@)),
{
    let ghost views = signers@.map(|i: int, k: EcdsaPublicKey| k@);
    let mut keys: AssocSet<NonFungibleKey> = AssocSet::new();
    let mut i: usize = 0;
    proof {
        assert forall|x: Seq<u8>| !keys@.contains(x) by {
            if keys@.contains(x) {
                keys.lemma_seq_members();
            }
        }
    }
    while i < signers.len()
        invariant
            keys.wf(),
            i <= signers@.len(),
            views == signers@.map(|j: int, k: EcdsaPublicKey| k@),
            forall|x: Seq<u8>| #![all_triggers]
                keys@.contains(x) <==> (exists|j: int| 0 <= j < i && views[j] == x),
        decreases signers@.len() - i,
    {
        let key = NonFungibleKey::new(signers[i].to_vec());
        let ghost before = keys@;
        keys.insert(key);
        proof {
            assert(views[i as int] == signers@[i as int]@);
            assert forall|x: Seq<u8>|
                keys@.contains(x) implies (exists|j: int| 0 <= j < i + 1 && views[j] == x) by {
                if x == views[i as int] {
                    assert(0 <= i < i + 1 && views[i as int] == x);
                } else {
                    assert(before.contains(x));
                    let j = choose|j: int| 0 <= j < i && views[j] == x;
                    assert(0 <= j < i + 1 && views[j] == x);
                }
            }
            assert forall|x: Seq<u8>|
                (exists|j: int| 0 <= j < i + 1 && views[j] == x) implies keys@.contains(x) by {
                let j = choose|j: int| 0 <= j < i + 1 && views[j] == x;
                if j < i {
                    assert(before.contains(x));
                }
            }
        }
        i = i + 1;
    }
    proof {
        assert forall|x: Seq<u8>| keys@.contains(x) == signer_key_set(views).contains(x) by {
            if signer_key_set(views).contains(x) {
                let j = choose|j: int| 0 <= j < views.len() && views[j] == x;
            }
            if keys@.contains(x) {
                let j = choose|j: int| 0 <= j < i && views[j] == x;
                assert(views.contains(x));
            }
        }
        assert(keys@ =~= signer_key_set(views));
    }
    keys
}

/// Writes each updated package back to the store.
#[verifier::loop_isolation(false)]
fn commit_packages<S: SubstateStore>(
    ledger: &mut S,
    cache: &AssocMap<Address, Package>,
    updated: &AssocSet<Address>,
)
    requires
        old(ledger).store_inv(),
        cache.wf(),
        updated.wf(),
        forall|k: AddressV| updated@.contains(k) ==> cache@.contains_key(k),
    ensures
        final(ledger).store_inv(),
        final(ledger).store_view() == (StoreV {
            packages: final(ledger).store_view().packages,
            ..old(ledger).store_view()
        }),
        forall|k: AddressV|
            updated@.contains(k) ==> final(ledger).store_view().packages.contains_key(k)
                && final(ledger).store_view().packages[k] == cache@[k],
        forall|k: AddressV|
            !updated@.contains(k) ==> final(ledger).store_view().packages.contains_key(k)
                == old(ledger).store_view().packages.contains_key(k) && (old(ledger).store_view().packages.contains_key(k)
                ==> final(ledger).store_view().packages[k] == old(ledger).store_view().packages[k]),
    {
        let n = updated.len();
        let mut i: usize = 0;
        proof {
            updated.lemma_seq_members();
        }
        while i < n
            invariant
                ledger.store_inv(),
                i <= n,
                ledger.store_view() == (StoreV {
                    packages: ledger.store_view().packages,
                    ..old(ledger).store_view()
                }),
                forall|k: AddressV| #![all_triggers]
                    (exists|j: int| 0 <= j < i && updated.seq()[j] == k)
                        ==> ledger.store_view().packages.contains_key(k)
                        && ledger.store_view().packages[k] == cache@[k],
                forall|k: AddressV| #![all_triggers]
                    !(exists|j: int| 0 <= j < i && updated.seq()[j] == k)
                        ==> ledger.store_view().packages.contains_key(k) == old(ledger).store_view().packages.contains_key(k) && (old(ledger).store_view().packages.contains_key(k)
                        ==> ledger.store_view().packages[k] == old(ledger).store_view().packages[k]),
            decreases n - i,
        {
            let key = updated.get_at(i);
            let value = match cache.get(key) {
                Some(v) => v,
                None => vstd::pervasive::unreached(),
            };
            let ghost pre = ledger.store_view();
            ledger.put_package(key.key_dup(), crate::assoc::DupValue::dup(value));
            proof {
                assert forall|k: AddressV|
                    (exists|j: int| 0 <= j < i + 1 && updated.seq()[j] == k) implies
                    ledger.store_view().packages.contains_key(k)
                        && ledger.store_view().packages[k] == cache@[k] by {
                    if k != key@ {
                        let j = choose|j: int| 0 <= j < i + 1 && updated.seq()[j] == k;
                        assert(j < i);
                        assert(0 <= j < i && updated.seq()[j] == k);
                        assert(exists|j2: int| 0 <= j2 < i && updated.seq()[j2] == k);
                        assert(pre.packages.contains_key(k) && pre.packages[k] == cache@[k]);
                    }
                }
                assert forall|k: AddressV|
                    !(exists|j: int| 0 <= j < i + 1 && updated.seq()[j] == k) implies
                    ledger.store_view().packages.contains_key(k) == old(ledger).store_view().packages.contains_key(k) && (old(ledger).store_view().packages.contains_key(k)
                        ==> ledger.store_view().packages[k] == old(ledger).store_view().packages[k]) by {
                    assert(k != key@) by {
                        assert(updated.seq()[i as int] == key@);
                    }
                    assert(!(exists|j: int| 0 <= j < i && updated.seq()[j] == k));
                }
            }
            i = i + 1;
        }
        proof {
            assert forall|k: AddressV| updated@.contains(k) implies
                ledger.store_view().packages.contains_key(k)
                    && ledger.store_view().packages[k] == cache@[k] by {
                let j = choose|j: int| 0 <= j < updated.seq().len() && updated.seq()[j] == k;
            }
            assert forall|k: AddressV| !updated@.contains(k) implies
                ledger.store_view().packages.contains_key(k) == old(ledger).store_view().packages.contains_key(k) && (old(ledger).store_view().packages.contains_key(k)
                    ==> ledger.store_view().packages[k] == old(ledger).store_view().packages[k]) by {
                if exists|j: int| 0 <= j < n && updated.seq()[j] == k {
                    let j = choose|j: int| 0 <= j < n && updated.seq()[j] == k;
                    assert(updated@.contains(updated.seq()[j]));
                }
            }
        }
    }


/// Writes each updated component back to the store.
#[verifier::loop_isolation(false)]
fn commit_components<S: SubstateStore>(
    ledger: &mut S,
    cache: &AssocMap<Address, Component>,
    updated: &AssocSet<Address>,
)
    requires
        old(ledger).store_inv(),
        cache.wf(),
        updated.wf(),
        forall|k: AddressV| updated@.contains(k) ==> cache@.contains_key(k),
    ensures
        final(ledger).store_inv(),
        final(ledger).store_view() == (StoreV {
            components: final(ledger).store_view().components,
            ..old(ledger).store_view()
        }),
        forall|k: AddressV|
            updated@.contains(k) ==> final(ledger).store_view().components.contains_key(k)
                && final(ledger).store_view().components[k] == cache@[k],
        forall|k: AddressV|
            !updated@.contains(k) ==> final(ledger).store_view().components.contains_key(k)
                == old(ledger).store_view().components.contains_key(k) && (old(ledger).store_view().components.contains_key(k)
                ==> final(ledger).store_view().components[k] == old(ledger).store_view().components[k]),
    {
        let n = updated.len();
        let mut i: usize = 0;
        proof {
            updated.lemma_seq_members();
        }
        while i < n
            invariant
                ledger.store_inv(),
                i <= n,
                ledger.store_view() == (StoreV {
                    components: ledger.store_view().components,
                    ..old(ledger).store_view()
                }),
                forall|k: AddressV| #![all_triggers]
                    (exists|j: int| 0 <= j < i && updated.seq()[j] == k)
                        ==> ledger.store_view().components.contains_key(k)
                        && ledger.store_view().components[k] == cache@[k],
                forall|k: AddressV| #![all_triggers]
                    !(exists|j: int| 0 <= j < i && updated.seq()[j] == k)
                        ==> ledger.store_view().components.contains_key(k) == old(ledger).store_view().components.contains_key(k) && (old(ledger).store_view().components.contains_key(k)
                        ==> ledger.store_view().components[k] == old(ledger).store_view().components[k]),
            decreases n - i,
        {
            let key = updated.get_at(i);
            let value = match cache.get(key) {
                Some(v) => v,
                None => vstd::pervasive::unreached(),
            };
            let ghost pre = ledger.store_view();
            ledger.put_component(key.key_dup(), crate::assoc::DupValue::dup(value));
            proof {
                assert forall|k: AddressV|
                    (exists|j: int| 0 <= j < i + 1 && updated.seq()[j] == k) implies
                    ledger.store_view().components.contains_key(k)
                        && ledger.store_view().components[k] == cache@[k] by {
                    if k != key@ {
                        let j = choose|j: int| 0 <= j < i + 1 && updated.seq()[j] == k;
                        assert(j < i);
                        assert(0 <= j < i && updated.seq()[j] == k);
                        assert(exists|j2: int| 0 <= j2 < i && updated.seq()[j2] == k);
                        assert(pre.components.contains_key(k) && pre.components[k] == cache@[k]);
                    }
                }
                assert forall|k: AddressV|
                    !(exists|j: int| 0 <= j < i + 1 && updated.seq()[j] == k) implies
                    ledger.store_view().components.contains_key(k) == old(ledger).store_view().components.contains_key(k) && (old(ledger).store_view().components.contains_key(k)
                        ==> ledger.store_view().components[k] == old(ledger).store_view().components[k]) by {
                    assert(k != key@) by {
                        assert(updated.seq()[i as int] == key@);
                    }
                    assert(!(exists|j: int| 0 <= j < i && updated.seq()[j] == k));
                }
            }
            i = i + 1;
        }
        proof {
            assert forall|k: AddressV| updated@.contains(k) implies
                ledger.store_view().components.contains_key(k)
                    && ledger.store_view().components[k] == cache@[k] by {
                let j = choose|j: int| 0 <= j < updated.seq().len() && updated.seq()[j] == k;
            }
            assert forall|k: AddressV| !updated@.contains(k) implies
                ledger.store_view().components.contains_key(k) == old(ledger).store_view().components.contains_key(k) && (old(ledger).store_view().components.contains_key(k)
                    ==> ledger.store_view().components[k] == old(ledger).store_view().components[k]) by {
                if exists|j: int| 0 <= j < n && updated.seq()[j] == k {
                    let j = choose|j: int| 0 <= j < n && updated.seq()[j] == k;
                    assert(updated@.contains(updated.seq()[j]));
                }
            }
        }
    }

/// Writes each updated resource definition back to the store.
#[verifier::loop_isolation(false)]
fn commit_resource_defs<S: SubstateStore>(
    ledger: &mut S,
    cache: &AssocMap<Address, ResourceDef>,
    updated: &AssocSet<Address>,
)
    requires
        old(ledger).store_inv(),
        cache.wf(),
        updated.wf(),
        forall|k: AddressV| updated@.contains(k) ==> cache@.contains_key(k),
        forall|i: int|
            0 <= i < cache.entry_seq().len() ==> (#[trigger] cache.entry_seq()[i].1).wf(),
    ensures
        final(ledger).store_inv(),
        final(ledger).store_view() == (StoreV {
            resource_defs: final(ledger).store_view().resource_defs,
            ..old(ledger).store_view()
        }),
        forall|k: AddressV|
            updated@.contains(k) ==> final(ledger).store_view().resource_defs.contains_key(k)
                && final(ledger).store_view().resource_defs[k] == cache@[k],
        forall|k: AddressV|
            !updated@.contains(k) ==> final(ledger).store_view().resource_defs.contains_key(k)
                == old(ledger).store_view().resource_defs.contains_key(k) && (old(ledger).store_view().resource_defs.contains_key(k)
                ==> final(ledger).store_view().resource_defs[k] == old(ledger).store_view().resource_defs[k]),
    {
        let n = updated.len();
        let mut i: usize = 0;
        proof {
            updated.lemma_seq_members();
        }
        while i < n
            invariant
                ledger.store_inv(),
                i <= n,
                ledger.store_view() == (StoreV {
                    resource_defs: ledger.store_view().resource_defs,
                    ..old(ledger).store_view()
                }),
                forall|k: AddressV| #![all_triggers]
                    (exists|j: int| 0 <= j < i && updated.seq()[j] == k)
                        ==> ledger.store_view().resource_defs.contains_key(k)
                        && ledger.store_view().resource_defs[k] == cache@[k],
                forall|k: AddressV| #![all_triggers]
                    !(exists|j: int| 0 <= j < i && updated.seq()[j] == k)
                        ==> ledger.store_view().resource_defs.contains_key(k) == old(ledger).store_view().resource_defs.contains_key(k) && (old(ledger).store_view().resource_defs.contains_key(k)
                        ==> ledger.store_view().resource_defs[k] == old(ledger).store_view().resource_defs[k]),
            decreases n - i,
        {
            let key = updated.get_at(i);
            let value = match cache.get(key) {
                Some(v) => v,
                None => vstd::pervasive::unreached(),
            };
            proof {
                let j = choose|j: int|
                    0 <= j < cache.entry_seq().len() && cache.entry_seq()[j].1 == *value;
            }
            let ghost pre = ledger.store_view();
            ledger.put_resource_def(key.key_dup(), ResourceDef::dup(value));
            proof {
                assert forall|k: AddressV|
                    (exists|j: int| 0 <= j < i + 1 && updated.seq()[j] == k) implies
                    ledger.store_view().resource_defs.contains_key(k)
                        && ledger.store_view().resource_defs[k] == cache@[k] by {
                    if k != key@ {
                        let j = choose|j: int| 0 <= j < i + 1 && updated.seq()[j] == k;
                        assert(j < i);
                        assert(0 <= j < i && updated.seq()[j] == k);
                        assert(exists|j2: int| 0 <= j2 < i && updated.seq()[j2] == k);
                        assert(pre.resource_defs.contains_key(k) && pre.resource_defs[k] == cache@[k]);
                    }
                }
                assert forall|k: AddressV|
                    !(exists|j: int| 0 <= j < i + 1 && updated.seq()[j] == k) implies
                    ledger.store_view().resource_defs.contains_key(k) == old(ledger).store_view().resource_defs.contains_key(k) && (old(ledger).store_view().resource_defs.contains_key(k)
                        ==> ledger.store_view().resource_defs[k] == old(ledger).store_view().resource_defs[k]) by {
                    assert(k != key@) by {
                        assert(updated.seq()[i as int] == key@);
                    }
                    assert(!(exists|j: int| 0 <= j < i && updated.seq()[j] == k));
                }
            }
            i = i + 1;
        }
        proof {
            assert forall|k: AddressV| updated@.contains(k) implies
                ledger.store_view().resource_defs.contains_key(k)
                    && ledger.store_view().resource_defs[k] == cache@[k] by {
                let j = choose|j: int| 0 <= j < updated.seq().len() && updated.seq()[j] == k;
            }
            assert forall|k: AddressV| !updated@.contains(k) implies
                ledger.store_view().resource_defs.contains_key(k) == old(ledger).store_view().resource_defs.contains_key(k) && (old(ledger).store_view().resource_defs.contains_key(k)
                    ==> ledger.store_view().resource_defs[k] == old(ledger).store_view().resource_defs[k]) by {
                if exists|j: int| 0 <= j < n && updated.seq()[j] == k {
                    let j = choose|j: int| 0 <= j < n && updated.seq()[j] == k;
                    assert(updated@.contains(updated.seq()[j]));
                }
            }
        }
    }

/// Writes each updated lazy map back to the store.
#[verifier::loop_isolation(false)]
fn commit_lazy_maps<S: SubstateStore>(
    ledger: &mut S,
    cache: &AssocMap<(Address, Mid), LazyMap>,
    updated: &AssocSet<(Address, Mid)>,
)
    requires
        old(ledger).store_inv(),
        cache.wf(),
        updated.wf(),
        forall|k: (AddressV, (Seq<u8>, u32))| updated@.contains(k) ==> cache@.contains_key(k),
        forall|i: int|
            0 <= i < cache.entry_seq().len() ==> (#[trigger] cache.entry_seq()[i].1).wf(),
    ensures
        final(ledger).store_inv(),
        final(ledger).store_view() == (StoreV {
            lazy_maps: final(ledger).store_view().lazy_maps,
            ..old(ledger).store_view()
        }),
        forall|k: (AddressV, (Seq<u8>, u32))|
            updated@.contains(k) ==> final(ledger).store_view().lazy_maps.contains_key(k)
                && final(ledger).store_view().lazy_maps[k] == cache@[k],
        forall|k: (AddressV, (Seq<u8>, u32))|
            !updated@.contains(k) ==> final(ledger).store_view().lazy_maps.contains_key(k)
                == old(ledger).store_view().lazy_maps.contains_key(k) && (old(ledger).store_view().lazy_maps.contains_key(k)
                ==> final(ledger).store_view().lazy_maps[k] == old(ledger).store_view().lazy_maps[k]),
    {
        let n = updated.len();
        let mut i: usize = 0;
        proof {
            updated.lemma_seq_members();
        }
        while i < n
            invariant
                ledger.store_inv(),
                i <= n,
                ledger.store_view() == (StoreV {
                    lazy_maps: ledger.store_view().lazy_maps,
                    ..old(ledger).store_view()
                }),
                forall|k: (AddressV, (Seq<u8>, u32))| #![all_triggers]
                    (exists|j: int| 0 <= j < i && updated.seq()[j] == k)
                        ==> ledger.store_view().lazy_maps.contains_key(k)
                        && ledger.store_view().lazy_maps[k] == cache@[k],
                forall|k: (AddressV, (Seq<u8>, u32))| #![all_triggers]
                    !(exists|j: int| 0 <= j < i && updated.seq()[j] == k)
                        ==> ledger.store_view().lazy_maps.contains_key(k) == old(ledger).store_view().lazy_maps.contains_key(k) && (old(ledger).store_view().lazy_maps.contains_key(k)
                        ==> ledger.store_view().lazy_maps[k] == old(ledger).store_view().lazy_maps[k]),
            decreases n - i,
        {
            let key = updated.get_at(i);
            let value = match cache.get(key) {
                Some(v) => v,
                None => vstd::pervasive::unreached(),
            };
            proof {
                let j = choose|j: int|
                    0 <= j < cache.entry_seq().len() && cache.entry_seq()[j].1 == *value;
            }
            let ghost pre = ledger.store_view();
            let kd = key.key_dup();
            ledger.put_lazy_map(kd.0, kd.1, LazyMap::dup(value));
            proof {
                assert forall|k: (AddressV, (Seq<u8>, u32))|
                    (exists|j: int| 0 <= j < i + 1 && updated.seq()[j] == k) implies
                    ledger.store_view().lazy_maps.contains_key(k)
                        && ledger.store_view().lazy_maps[k] == cache@[k] by {
                    if k != key@ {
                        let j = choose|j: int| 0 <= j < i + 1 && updated.seq()[j] == k;
                        assert(j < i);
                        assert(0 <= j < i && updated.seq()[j] == k);
                        assert(exists|j2: int| 0 <= j2 < i && updated.seq()[j2] == k);
                        assert(pre.lazy_maps.contains_key(k) && pre.lazy_maps[k] == cache@[k]);
                    }
                }
                assert forall|k: (AddressV, (Seq<u8>, u32))|
                    !(exists|j: int| 0 <= j < i + 1 && updated.seq()[j] == k) implies
                    ledger.store_view().lazy_maps.contains_key(k) == old(ledger).store_view().lazy_maps.contains_key(k) && (old(ledger).store_view().lazy_maps.contains_key(k)
                        ==> ledger.store_view().lazy_maps[k] == old(ledger).store_view().lazy_maps[k]) by {
                    assert(k != key@) by {
                        assert(updated.seq()[i as int] == key@);
                    }
                    assert(!(exists|j: int| 0 <= j < i && updated.seq()[j] == k));
                }
            }
            i = i + 1;
        }
        proof {
            assert forall|k: (AddressV, (Seq<u8>, u32))| updated@.contains(k) implies
                ledger.store_view().lazy_maps.contains_key(k)
                    && ledger.store_view().lazy_maps[k] == cache@[k] by {
                let j = choose|j: int| 0 <= j < updated.seq().len() && updated.seq()[j] == k;
            }
            assert forall|k: (AddressV, (Seq<u8>, u32))| !updated@.contains(k) implies
                ledger.store_view().lazy_maps.contains_key(k) == old(ledger).store_view().lazy_maps.contains_key(k) && (old(ledger).store_view().lazy_maps.contains_key(k)
                    ==> ledger.store_view().lazy_maps[k] == old(ledger).store_view().lazy_maps[k]) by {
                if exists|j: int| 0 <= j < n && updated.seq()[j] == k {
                    let j = choose|j: int| 0 <= j < n && updated.seq()[j] == k;
                    assert(updated@.contains(updated.seq()[j]));
                }
            }
        }
    }

/// Writes each updated vault back to the store.
#[verifier::loop_isolation(false)]
fn commit_vaults<S: SubstateStore>(
    ledger: &mut S,
    cache: &AssocMap<(Address, Vid), Vault>,
    updated: &AssocSet<(Address, Vid)>,
)
    requires
        old(ledger).store_inv(),
        cache.wf(),
        updated.wf(),
        forall|k: (AddressV, (Seq<u8>, u32))| updated@.contains(k) ==> cache@.contains_key(k),
        forall|i: int|
            0 <= i < cache.entry_seq().len() ==> (#[trigger] cache.entry_seq()[i].1).wf(),
    ensures
        final(ledger).store_inv(),
        final(ledger).store_view() == (StoreV {
            vaults: final(ledger).store_view().vaults,
            ..old(ledger).store_view()
        }),
        forall|k: (AddressV, (Seq<u8>, u32))|
            updated@.contains(k) ==> final(ledger).store_view().vaults.contains_key(k)
                && final(ledger).store_view().vaults[k] == cache@[k],
        forall|k: (AddressV, (Seq<u8>, u32))|
            !updated@.contains(k) ==> final(ledger).store_view().vaults.contains_key(k)
                == old(ledger).store_view().vaults.contains_key(k) && (old(ledger).store_view().vaults.contains_key(k)
                ==> final(ledger).store_view().vaults[k] == old(ledger).store_view().vaults[k]),
    {
        let n = updated.len();
        let mut i: usize = 0;
        proof {
            updated.lemma_seq_members();
        }
        while i < n
            invariant
                ledger.store_inv(),
                i <= n,
                ledger.store_view() == (StoreV {
                    vaults: ledger.store_view().vaults,
                    ..old(ledger).store_view()
                }),
                forall|k: (AddressV, (Seq<u8>, u32))| #![all_triggers]
                    (exists|j: int| 0 <= j < i && updated.seq()[j] == k)
                        ==> ledger.store_view().vaults.contains_key(k)
                        && ledger.store_view().vaults[k] == cache@[k],
                forall|k: (AddressV, (Seq<u8>, u32))| #![all_triggers]
                    !(exists|j: int| 0 <= j < i && updated.seq()[j] == k)
                        ==> ledger.store_view().vaults.contains_key(k) == old(ledger).store_view().vaults.contains_key(k) && (old(ledger).store_view().vaults.contains_key(k)
                        ==> ledger.store_view().vaults[k] == old(ledger).store_view().vaults[k]),
            decreases n - i,
        {
            let key = updated.get_at(i);
            let value = match cache.get(key) {
                Some(v) => v,
                None => vstd::pervasive::unreached(),
            };
            proof {
                let j = choose|j: int|
                    0 <= j < cache.entry_seq().len() && cache.entry_seq()[j].1 == *value;
            }
            let ghost pre = ledger.store_view();
            let kd = key.key_dup();
            ledger.put_vault(kd.0, kd.1, Vault::dup(value));
            proof {
                assert forall|k: (AddressV, (Seq<u8>, u32))|
                    (exists|j: int| 0 <= j < i + 1 && updated.seq()[j] == k) implies
                    ledger.store_view().vaults.contains_key(k)
                        && ledger.store_view().vaults[k] == cache@[k] by {
                    if k != key@ {
                        let j = choose|j: int| 0 <= j < i + 1 && updated.seq()[j] == k;
                        assert(j < i);
                        assert(0 <= j < i && updated.seq()[j] == k);
                        assert(exists|j2: int| 0 <= j2 < i && updated.seq()[j2] == k);
                        assert(pre.vaults.contains_key(k) && pre.vaults[k] == cache@[k]);
                    }
                }
                assert forall|k: (AddressV, (Seq<u8>, u32))|
                    !(exists|j: int| 0 <= j < i + 1 && updated.seq()[j] == k) implies
                    ledger.store_view().vaults.contains_key(k) == old(ledger).store_view().vaults.contains_key(k) && (old(ledger).store_view().vaults.contains_key(k)
                        ==> ledger.store_view().vaults[k] == old(ledger).store_view().vaults[k]) by {
                    assert(k != key@) by {
                        assert(updated.seq()[i as int] == key@);
                    }
                    assert(!(exists|j: int| 0 <= j < i && updated.seq()[j] == k));
                }
            }
            i = i + 1;
        }
        proof {
            assert forall|k: (AddressV, (Seq<u8>, u32))| updated@.contains(k) implies
                ledger.store_view().vaults.contains_key(k)
                    && ledger.store_view().vaults[k] == cache@[k] by {
                let j = choose|j: int| 0 <= j < updated.seq().len() && updated.seq()[j] == k;
            }
            assert forall|k: (AddressV, (Seq<u8>, u32))| !updated@.contains(k) implies
                ledger.store_view().vaults.contains_key(k) == old(ledger).store_view().vaults.contains_key(k) && (old(ledger).store_view().vaults.contains_key(k)
                    ==> ledger.store_view().vaults[k] == old(ledger).store_view().vaults[k]) by {
                if exists|j: int| 0 <= j < n && updated.seq()[j] == k {
                    let j = choose|j: int| 0 <= j < n && updated.seq()[j] == k;
                    assert(updated@.contains(updated.seq()[j]));
                }
            }
        }
    }

/// Writes each updated non-fungible back to the store.
#[verifier::loop_isolation(false)]
fn commit_non_fungibles<S: SubstateStore>(
    ledger: &mut S,
    cache: &AssocMap<(Address, NonFungibleKey), NonFungible>,
    updated: &AssocSet<(Address, NonFungibleKey)>,
)
    requires
        old(ledger).store_inv(),
        cache.wf(),
        updated.wf(),
        forall|k: (AddressV, Seq<u8>)| updated@.contains(k) ==> cache@.contains_key(k),
    ensures
        final(ledger).store_inv(),
        final(ledger).store_view() == (StoreV {
            non_fungibles: final(ledger).store_view().non_fungibles,
            ..old(ledger).store_view()
        }),
        forall|k: (AddressV, Seq<u8>)|
            updated@.contains(k) ==> final(ledger).store_view().non_fungibles.contains_key(k)
                && final(ledger).store_view().non_fungibles[k] == cache@[k],
        forall|k: (AddressV, Seq<u8>)|
            !updated@.contains(k) ==> final(ledger).store_view().non_fungibles.contains_key(k)
                == old(ledger).store_view().non_fungibles.contains_key(k) && (old(ledger).store_view().non_fungibles.contains_key(k)
                ==> final(ledger).store_view().non_fungibles[k] == old(ledger).store_view().non_fungibles[k]),
    {
        let n = updated.len();
        let mut i: usize = 0;
        proof {
            updated.lemma_seq_members();
        }
        while i < n
            invariant
                ledger.store_inv(),
                i <= n,
                ledger.store_view() == (StoreV {
                    non_fungibles: ledger.store_view().non_fungibles,
                    ..old(ledger).store_view()
                }),
                forall|k: (AddressV, Seq<u8>)| #![all_triggers]
                    (exists|j: int| 0 <= j < i && updated.seq()[j] == k)
                        ==> ledger.store_view().non_fungibles.contains_key(k)
                        && ledger.store_view().non_fungibles[k] == cache@[k],
                forall|k: (AddressV, Seq<u8>)| #![all_triggers]
                    !(exists|j: int| 0 <= j < i && updated.seq()[j] == k)
                        ==> ledger.store_view().non_fungibles.contains_key(k) == old(ledger).store_view().non_fungibles.contains_key(k) && (old(ledger).store_view().non_fungibles.contains_key(k)
                        ==> ledger.store_view().non_fungibles[k] == old(ledger).store_view().non_fungibles[k]),
            decreases n - i,
        {
            let key = updated.get_at(i);
            let value = match cache.get(key) {
                Some(v) => v,
                None => vstd::pervasive::unreached(),
            };
            let ghost pre = ledger.store_view();
            let kd = key.key_dup();
            ledger.put_non_fungible(kd.0, kd.1, crate::assoc::DupValue::dup(value));
            proof {
                assert forall|k: (AddressV, Seq<u8>)|
                    (exists|j: int| 0 <= j < i + 1 && updated.seq()[j] == k) implies
                    ledger.store_view().non_fungibles.contains_key(k)
                        && ledger.store_view().non_fungibles[k] == cache@[k] by {
                    if k != key@ {
                        let j = choose|j: int| 0 <= j < i + 1 && updated.seq()[j] == k;
                        assert(j < i);
                        assert(0 <= j < i && updated.seq()[j] == k);
                        assert(exists|j2: int| 0 <= j2 < i && updated.seq()[j2] == k);
                        assert(pre.non_fungibles.contains_key(k) && pre.non_fungibles[k] == cache@[k]);
                    }
                }
                assert forall|k: (AddressV, Seq<u8>)|
                    !(exists|j: int| 0 <= j < i + 1 && updated.seq()[j] == k) implies
                    ledger.store_view().non_fungibles.contains_key(k) == old(ledger).store_view().non_fungibles.contains_key(k) && (old(ledger).store_view().non_fungibles.contains_key(k)
                        ==> ledger.store_view().non_fungibles[k] == old(ledger).store_view().non_fungibles[k]) by {
                    assert(k != key@) by {
                        assert(updated.seq()[i as int] == key@);
                    }
                    assert(!(exists|j: int| 0 <= j < i && updated.seq()[j] == k));
                }
            }
            i = i + 1;
        }
        proof {
            assert forall|k: (AddressV, Seq<u8>)| updated@.contains(k) implies
                ledger.store_view().non_fungibles.contains_key(k)
                    && ledger.store_view().non_fungibles[k] == cache@[k] by {
                let j = choose|j: int| 0 <= j < updated.seq().len() && updated.seq()[j] == k;
            }
            assert forall|k: (AddressV, Seq<u8>)| !updated@.contains(k) implies
                ledger.store_view().non_fungibles.contains_key(k) == old(ledger).store_view().non_fungibles.contains_key(k) && (old(ledger).store_view().non_fungibles.contains_key(k)
                    ==> ledger.store_view().non_fungibles[k] == old(ledger).store_view().non_fungibles[k]) by {
                if exists|j: int| 0 <= j < n && updated.seq()[j] == k {
                    let j = choose|j: int| 0 <= j < n && updated.seq()[j] == k;
                    assert(updated@.contains(updated.seq()[j]));
                }
            }
        }
    }

/// The abstract state of a track: the store overlaid with the staged
/// writes, the updated-key sets, and the transaction context.
pub struct TrackV {
    pub transaction_hash: Seq<u8>,
    pub signers: Seq<Seq<u8>>,
    pub next_id: u32,
    pub logs: Seq<(LogLevel, String)>,
    pub packages: Map<AddressV, Seq<u8>>,
    pub components: Map<AddressV, ComponentV>,
    pub resource_defs: Map<AddressV, ResourceDefV>,
    pub lazy_maps: Map<(AddressV, (Seq<u8>, u32)), Map<Seq<u8>, Seq<u8>>>,
    pub vaults: Map<(AddressV, (Seq<u8>, u32)), BucketV>,
    pub non_fungibles: Map<(AddressV, Seq<u8>), (Seq<u8>, Seq<u8>)>,
    pub updated_packages: Set<AddressV>,
    pub updated_components: Set<AddressV>,
    pub updated_resource_defs: Set<AddressV>,
    pub updated_lazy_maps: Set<(AddressV, (Seq<u8>, u32))>,
    pub updated_vaults: Set<(AddressV, (Seq<u8>, u32))>,
    pub updated_non_fungibles: Set<(AddressV, Seq<u8>)>,
    pub new_entities: Seq<AddressV>,
}

/// An abstraction of transaction execution state.  It acts as the facade of
/// ledger state and keeps track of all temporary state updates until
/// `commit` is called.
pub struct Track<S: SubstateStore> {
    ledger: S,
    transaction_hash: H256,
    transaction_signers: Vec<EcdsaPublicKey>,
    id_allocator: IdAllocator,
    logs: Vec<(LogLevel, String)>,
    packages: AssocMap<Address, Package>,
    components: AssocMap<Address, Component>,
    resource_defs: AssocMap<Address, ResourceDef>,
    lazy_maps: AssocMap<(Address, Mid), LazyMap>,
    vaults: AssocMap<(Address, Vid), Vault>,
    non_fungibles: AssocMap<(Address, NonFungibleKey), NonFungible>,
    updated_packages: AssocSet<Address>,
    updated_components: AssocSet<Address>,
    updated_resource_defs: AssocSet<Address>,
    updated_lazy_maps: AssocSet<(Address, Mid)>,
    updated_vaults: AssocSet<(Address, Vid)>,
    updated_non_fungibles: AssocSet<(Address, NonFungibleKey)>,
    new_entities: Vec<Address>,
    code_cache: crate::code_cache::CodeCache,
}

impl<S: SubstateStore> Track<S> {
    /// The abstract state.
    pub closed spec fn view(&self) -> TrackV {
        TrackV {
            transaction_hash: self.transaction_hash@,
            signers: self.transaction_signers@.map(|i: int, k: EcdsaPublicKey| k@),
            next_id: self.id_allocator.cursor(),
            logs: self.logs@,
            packages: self.ledger.store_view().packages.union_prefer_right(self.packages@),
            components: self.ledger.store_view().components.union_prefer_right(
                self.components@,
            ),
            resource_defs: self.ledger.store_view().resource_defs.union_prefer_right(
                self.resource_defs@,
            ),
            lazy_maps: self.ledger.store_view().lazy_maps.union_prefer_right(self.lazy_maps@),
            vaults: self.ledger.store_view().vaults.union_prefer_right(self.vaults@),
            non_fungibles: self.ledger.store_view().non_fungibles.union_prefer_right(
                self.non_fungibles@,
            ),
            updated_packages: self.updated_packages@,
            updated_components: self.updated_components@,
            updated_resource_defs: self.updated_resource_defs@,
            updated_lazy_maps: self.updated_lazy_maps@,
            updated_vaults: self.updated_vaults@,
            updated_non_fungibles: self.updated_non_fungibles@,
            new_entities: self.new_entities@.map(|i: int, a: Address| a@),
        }
    }

    /// The store below the staged writes.
    pub closed spec fn ledger_view(&self) -> StoreV {
        self.ledger.store_view()
    }

    pub closed spec fn inv(&self) -> bool {
        &&& self.ledger.store_inv()
        &&& self.transaction_hash.wf()
        &&& self.id_allocator.wf()
        &&& self.id_allocator.limit() == u32::MAX
        &&& self.packages.wf()
        &&& self.components.wf()
        &&& self.resource_defs.wf()
        &&& self.lazy_maps.wf()
        &&& self.vaults.wf()
        &&& self.non_fungibles.wf()
        &&& self.updated_packages.wf()
        &&& self.updated_components.wf()
        &&& self.updated_resource_defs.wf()
        &&& self.updated_lazy_maps.wf()
        &&& self.updated_vaults.wf()
        &&& self.updated_non_fungibles.wf()
        &&& forall|k: AddressV|
            self.updated_packages@.contains(k) ==> self.packages@.contains_key(k)
        &&& forall|k: AddressV|
            self.updated_components@.contains(k) ==> self.components@.contains_key(k)
        &&& forall|k: AddressV|
            self.updated_resource_defs@.contains(k) ==> self.resource_defs@.contains_key(k)
        &&& forall|k: (AddressV, (Seq<u8>, u32))|
            self.updated_lazy_maps@.contains(k) ==> self.lazy_maps@.contains_key(k)
        &&& forall|k: (AddressV, (Seq<u8>, u32))|
            self.updated_vaults@.contains(k) ==> self.vaults@.contains_key(k)
        &&& forall|k: (AddressV, Seq<u8>)|
            self.updated_non_fungibles@.contains(k) ==> self.non_fungibles@.contains_key(k)
        &&& forall|k: AddressV|
            self.packages@.contains_key(k) && !self.updated_packages@.contains(k)
                ==> self.ledger.store_view().packages.contains_key(k)
                && self.ledger.store_view().packages[k] == self.packages@[k]
        &&& forall|k: AddressV|
            self.components@.contains_key(k) && !self.updated_components@.contains(k)
                ==> self.ledger.store_view().components.contains_key(k)
                && self.ledger.store_view().components[k] == self.components@[k]
        &&& forall|k: AddressV|
            self.resource_defs@.contains_key(k) && !self.updated_resource_defs@.contains(k)
                ==> self.ledger.store_view().resource_defs.contains_key(k)
                && self.ledger.store_view().resource_defs[k] == self.resource_defs@[k]
        &&& forall|k: (AddressV, (Seq<u8>, u32))|
            self.lazy_maps@.contains_key(k) && !self.updated_lazy_maps@.contains(k)
                ==> self.ledger.store_view().lazy_maps.contains_key(k)
                && self.ledger.store_view().lazy_maps[k] == self.lazy_maps@[k]
        &&& forall|k: (AddressV, (Seq<u8>, u32))|
            self.vaults@.contains_key(k) && !self.updated_vaults@.contains(k)
                ==> self.ledger.store_view().vaults.contains_key(k)
                && self.ledger.store_view().vaults[k] == self.vaults@[k]
        &&& forall|k: (AddressV, Seq<u8>)|
            self.non_fungibles@.contains_key(k) && !self.updated_non_fungibles@.contains(k)
                ==> self.ledger.store_view().non_fungibles.contains_key(k)
                && self.ledger.store_view().non_fungibles[k] == self.non_fungibles@[k]
        &&& forall|i: int|
            0 <= i < self.resource_defs.entry_seq().len()
                ==> (#[trigger] self.resource_defs.entry_seq()[i].1).wf()
        &&& forall|i: int|
            0 <= i < self.lazy_maps.entry_seq().len()
                ==> (#[trigger] self.lazy_maps.entry_seq()[i].1).wf()
        &&& forall|i: int|
            0 <= i < self.vaults.entry_seq().len() ==> (#[trigger] self.vaults.entry_seq()[
            i].1).wf()
    }

    /// Opens a track over a store for one transaction.
    pub fn new(
        ledger: S,
        transaction_hash: H256,
        transaction_signers: Vec<EcdsaPublicKey>,
    ) -> (r: Self)
        requires
            ledger.store_inv(),
            transaction_hash.wf(),
        ensures
            r.inv(),
            r.ledger_view() == ledger.store_view(),
            r.view() == (TrackV {
                transaction_hash: transaction_hash@,
                signers: transaction_signers@.map(|i: int, k: EcdsaPublicKey| k@),
                next_id: 1024,
                logs: Seq::empty(),
                packages: ledger.store_view().packages,
                components: ledger.store_view().components,
                resource_defs: ledger.store_view().resource_defs,
                lazy_maps: ledger.store_view().lazy_maps,
                vaults: ledger.store_view().vaults,
                non_fungibles: ledger.store_view().non_fungibles,
                updated_packages: Set::empty(),
                updated_components: Set::empty(),
                updated_resource_defs: Set::empty(),
                updated_lazy_maps: Set::empty(),
                updated_vaults: Set::empty(),
                updated_non_fungibles: Set::empty(),
                new_entities: Seq::empty(),
            }),
    {
        let r = Track {
            ledger,
            transaction_hash,
            transaction_signers,
            id_allocator: IdAllocator::new(IdSpace::Application),
            logs: Vec::new(),
            packages: AssocMap::new(),
            components: AssocMap::new(),
            resource_defs: AssocMap::new(),
            lazy_maps: AssocMap::new(),
            vaults: AssocMap::new(),
            non_fungibles: AssocMap::new(),
            updated_packages: AssocSet::new(),
            updated_components: AssocSet::new(),
            updated_lazy_maps: AssocSet::new(),
            updated_resource_defs: AssocSet::new(),
            updated_vaults: AssocSet::new(),
            updated_non_fungibles: AssocSet::new(),
            new_entities: Vec::new(),
            code_cache: crate::code_cache::CodeCache::new(1024),
        };
        proof {
            assert(r.view().packages =~= r.ledger.store_view().packages);
            assert(r.view().components =~= r.ledger.store_view().components);
            assert(r.view().resource_defs =~= r.ledger.store_view().resource_defs);
            assert(r.view().lazy_maps =~= r.ledger.store_view().lazy_maps);
            assert(r.view().vaults =~= r.ledger.store_view().vaults);
            assert(r.view().non_fungibles =~= r.ledger.store_view().non_fungibles);
            assert(r.view().new_entities =~= Seq::<AddressV>::empty());
        }
        r
    }

    /// Returns the transaction hash.
    pub fn transaction_hash(&self) -> (r: H256)
        ensures
            r@ == self.view().transaction_hash,
            r.wf() <==> self.view().transaction_hash.len() == 32,
    {
        self.transaction_hash.clone()
    }

    /// Returns the transaction's signer public keys.
    pub fn signers(&self) -> (r: &Vec<EcdsaPublicKey>)
        ensures
            r@.len() == self.view().signers.len(),
            forall|i: int| 0 <= i < r@.len() ==> r@[i]@ == self.view().signers[i],
    {
        &self.transaction_signers
    }

    /// Returns the current epoch of the store.
    pub fn current_epoch(&self) -> (r: u64)
        requires
            self.inv(),
        ensures
            r == self.ledger_view().epoch,
    {
        self.ledger.get_epoch()
    }

    /// Returns the logs collected so far.
    pub fn logs(&self) -> (r: &Vec<(LogLevel, String)>)
        ensures
            r@ == self.view().logs,
    {
        &self.logs
    }

    /// Returns the entities created so far.
    pub fn new_entities(&self) -> (r: &Vec<Address>)
        ensures
            r@.len() == self.view().new_entities.len(),
            forall|i: int| 0 <= i < r@.len() ==> r@[i]@ == self.view().new_entities[i],
    {
        &self.new_entities
    }

    /// Adds a log message.
    pub fn add_log(&mut self, level: LogLevel, message: String)
        requires
            old(self).inv(),
        ensures
            final(self).inv(),
            final(self).view() == (TrackV {
                logs: old(self).view().logs.push((level, message)),
                ..old(self).view()
            }),
            final(self).ledger_view() == old(self).ledger_view(),
    {
        self.logs.push((level, message));
    }

    /// Returns a copy of the package at an address, caching the read.
    pub fn get_package(&mut self, address: &Address) -> (r: Option<Package>)
        requires
            old(self).inv(),
        ensures
            final(self).inv(),
            final(self).view() == old(self).view(),
            final(self).ledger_view() == old(self).ledger_view(),
            match r {
                Some(p) => old(self).view().packages.contains_key(address@) && p@ == old(self).view().packages[address@],
                None => !old(self).view().packages.contains_key(address@),
            },
    {
        let cached = match self.packages.get(address) {
            Some(p) => Some(crate::assoc::DupValue::dup(p)),
            None => None,
        };
        match cached {
            Some(p) => Some(p),
            None => {
                match self.ledger.get_package(address) {
                    Some(p) => {
                        self.packages.insert(
                            address.key_dup(),
                            crate::assoc::DupValue::dup(&p),
                        );
                        proof {
                            assert(self.view().packages =~= old(self).view().packages);
                            assert(self.view() == old(self).view());
                        }
                        Some(p)
                    },
                    None => None,
                }
            },
        }
    }

    /// Stages a package write.
    pub fn put_package(&mut self, address: Address, package: Package)
        requires
            old(self).inv(),
        ensures
            final(self).inv(),
            final(self).ledger_view() == old(self).ledger_view(),
            final(self).view() == (TrackV {
                packages: old(self).view().packages.insert(address@, package@),
                updated_packages: old(self).view().updated_packages.insert(address@),
                ..old(self).view()
            }),
    {
        self.updated_packages.insert(address.key_dup());
        self.packages.insert(address, package);
        proof {
            assert(self.view().packages =~= old(self).view().packages.insert(
                address@,
                package@,
            ));
        }
    }

    /// Returns a copy of the component at an address, caching the read.
    pub fn get_component(&mut self, address: &Address) -> (r: Option<Component>)
        requires
            old(self).inv(),
        ensures
            final(self).inv(),
            final(self).view() == old(self).view(),
            final(self).ledger_view() == old(self).ledger_view(),
            match r {
                Some(c) => old(self).view().components.contains_key(address@) && c@ == old(self).view().components[address@],
                None => !old(self).view().components.contains_key(address@),
            },
    {
        let cached = match self.components.get(address) {
            Some(c) => Some(crate::assoc::DupValue::dup(c)),
            None => None,
        };
        match cached {
            Some(c) => Some(c),
            None => {
                match self.ledger.get_component(address) {
                    Some(c) => {
                        self.components.insert(
                            address.key_dup(),
                            crate::assoc::DupValue::dup(&c),
                        );
                        proof {
                            assert(self.view().components =~= old(self).view().components);
                            assert(self.view() == old(self).view());
                        }
                        Some(c)
                    },
                    None => None,
                }
            },
        }
    }

    /// Stages a component write.
    pub fn put_component(&mut self, address: Address, component: Component)
        requires
            old(self).inv(),
        ensures
            final(self).inv(),
            final(self).ledger_view() == old(self).ledger_view(),
            final(self).view() == (TrackV {
                components: old(self).view().components.insert(address@, component@),
                updated_components: old(self).view().updated_components.insert(address@),
                ..old(self).view()
            }),
    {
        self.updated_components.insert(address.key_dup());
        self.components.insert(address, component);
        proof {
            assert(self.view().components =~= old(self).view().components.insert(
                address@,
                component@,
            ));
        }
    }

    /// Returns a copy of the resource definition at an address, caching the
    /// read.
    pub fn get_resource_def(&mut self, address: &Address) -> (r: Option<ResourceDef>)
        requires
            old(self).inv(),
        ensures
            final(self).inv(),
            final(self).view() == old(self).view(),
            final(self).ledger_view() == old(self).ledger_view(),
            match r {
                Some(d) => old(self).view().resource_defs.contains_key(address@) && d@ == old(self).view().resource_defs[address@] && d.wf(),
                None => !old(self).view().resource_defs.contains_key(address@),
            },
    {
        let cached = match self.resource_defs.get(address) {
            Some(d) => {
                proof {
                    let j = choose|j: int|
                        0 <= j < self.resource_defs.entry_seq().len()
                            && self.resource_defs.entry_seq()[j].1 == *d;
                }
                Some(ResourceDef::dup(d))
            },
            None => None,
        };
        match cached {
            Some(d) => Some(d),
            None => {
                match self.ledger.get_resource_def(address) {
                    Some(d) => {
                        self.resource_defs.insert(address.key_dup(), ResourceDef::dup(&d));
                        proof {
                            assert(self.view().resource_defs =~= old(self).view().resource_defs);
                            assert(self.view() == old(self).view());
                        }
                        Some(d)
                    },
                    None => None,
                }
            },
        }
    }

    /// Stages a resource definition write.
    pub fn put_resource_def(&mut self, address: Address, resource_def: ResourceDef)
        requires
            old(self).inv(),
            resource_def.wf(),
        ensures
            final(self).inv(),
            final(self).ledger_view() == old(self).ledger_view(),
            final(self).view() == (TrackV {
                resource_defs: old(self).view().resource_defs.insert(
                    address@,
                    resource_def@,
                ),
                updated_resource_defs: old(self).view().updated_resource_defs.insert(
                    address@,
                ),
                ..old(self).view()
            }),
    {
        self.updated_resource_defs.insert(address.key_dup());
        self.resource_defs.insert(address, resource_def);
        proof {
            assert(self.view().resource_defs =~= old(self).view().resource_defs.insert(
                address@,
                resource_def@,
            ));
        }
    }

    /// Returns a copy of a lazy map, caching the read.
    pub fn get_lazy_map(&mut self, component_address: &Address, mid: &Mid) -> (r: Option<
        LazyMap,
    >)
        requires
            old(self).inv(),
        ensures
            final(self).inv(),
            final(self).view() == old(self).view(),
            final(self).ledger_view() == old(self).ledger_view(),
            match r {
                Some(m) => old(self).view().lazy_maps.contains_key(
                    (component_address@, mid@),
                ) && m@ == old(self).view().lazy_maps[(component_address@, mid@)] && m.wf(),
                None => !old(self).view().lazy_maps.contains_key((component_address@, mid@)),
            },
    {
        let key = (component_address.key_dup(), mid.key_dup());
        let cached = match self.lazy_maps.get(&key) {
            Some(m) => {
                proof {
                    let j = choose|j: int|
                        0 <= j < self.lazy_maps.entry_seq().len()
                            && self.lazy_maps.entry_seq()[j].1 == *m;
                }
                Some(LazyMap::dup(m))
            },
            None => None,
        };
        match cached {
            Some(m) => Some(m),
            None => {
                match self.ledger.get_lazy_map(component_address, mid) {
                    Some(m) => {
                        self.lazy_maps.insert(key, LazyMap::dup(&m));
                        proof {
                            assert(self.view().lazy_maps =~= old(self).view().lazy_maps);
                            assert(self.view() == old(self).view());
                        }
                        Some(m)
                    },
                    None => None,
                }
            },
        }
    }

    /// Stages a lazy map write.
    pub fn put_lazy_map(&mut self, component_address: Address, mid: Mid, lazy_map: LazyMap)
        requires
            old(self).inv(),
            lazy_map.wf(),
        ensures
            final(self).inv(),
            final(self).ledger_view() == old(self).ledger_view(),
            final(self).view() == (TrackV {
                lazy_maps: old(self).view().lazy_maps.insert(
                    (component_address@, mid@),
                    lazy_map@,
                ),
                updated_lazy_maps: old(self).view().updated_lazy_maps.insert(
                    (component_address@, mid@),
                ),
                ..old(self).view()
            }),
    {
        let key = (component_address, mid);
        self.updated_lazy_maps.insert(key.key_dup());
        self.lazy_maps.insert(key, lazy_map);
        proof {
            assert(self.view().lazy_maps =~= old(self).view().lazy_maps.insert(
                (component_address@, mid@),
                lazy_map@,
            ));
        }
    }

    /// Returns a copy of a vault, caching the read.
    pub fn get_vault(&mut self, component_address: &Address, vid: &Vid) -> (r: Option<Vault>)
        requires
            old(self).inv(),
        ensures
            final(self).inv(),
            final(self).view() == old(self).view(),
            final(self).ledger_view() == old(self).ledger_view(),
            match r {
                Some(v) => old(self).view().vaults.contains_key((component_address@, vid@))
                    && v@ == old(self).view().vaults[(component_address@, vid@)] && v.wf(),
                None => !old(self).view().vaults.contains_key((component_address@, vid@)),
            },
    {
        let key = (component_address.key_dup(), vid.key_dup());
        let cached = match self.vaults.get(&key) {
            Some(v) => {
                proof {
                    let j = choose|j: int|
                        0 <= j < self.vaults.entry_seq().len() && self.vaults.entry_seq()[
                        j].1 == *v;
                }
                Some(Vault::dup(v))
            },
            None => None,
        };
        match cached {
            Some(v) => Some(v),
            None => {
                match self.ledger.get_vault(component_address, vid) {
                    Some(v) => {
                        self.vaults.insert(key, Vault::dup(&v));
                        proof {
                            assert(self.view().vaults =~= old(self).view().vaults);
                            assert(self.view() == old(self).view());
                        }
                        Some(v)
                    },
                    None => None,
                }
            },
        }
    }

    /// Stages a vault write.
    pub fn put_vault(&mut self, component_address: Address, vid: Vid, vault: Vault)
        requires
            old(self).inv(),
            vault.wf(),
        ensures
            final(self).inv(),
            final(self).ledger_view() == old(self).ledger_view(),
            final(self).view() == (TrackV {
                vaults: old(self).view().vaults.insert((component_address@, vid@), vault@),
                updated_vaults: old(self).view().updated_vaults.insert(
                    (component_address@, vid@),
                ),
                ..old(self).view()
            }),
    {
        let key = (component_address, vid);
        self.updated_vaults.insert(key.key_dup());
        self.vaults.insert(key, vault);
        proof {
            assert(self.view().vaults =~= old(self).view().vaults.insert(
                (component_address@, vid@),
                vault@,
            ));
        }
    }

    /// Returns a copy of a non-fungible's data, caching the read.
    pub fn get_non_fungible(&mut self, resource_address: &Address, key: &NonFungibleKey) -> (r:
        Option<NonFungible>)
        requires
            old(self).inv(),
        ensures
            final(self).inv(),
            final(self).view() == old(self).view(),
            final(self).ledger_view() == old(self).ledger_view(),
            match r {
                Some(n) => old(self).view().non_fungibles.contains_key(
                    (resource_address@, key@),
                ) && n@ == old(self).view().non_fungibles[(resource_address@, key@)],
                None => !old(self).view().non_fungibles.contains_key(
                    (resource_address@, key@),
                ),
            },
    {
        let k = (resource_address.key_dup(), key.key_dup());
        let cached = match self.non_fungibles.get(&k) {
            Some(n) => Some(crate::assoc::DupValue::dup(n)),
            None => None,
        };
        match cached {
            Some(n) => Some(n),
            None => {
                match self.ledger.get_non_fungible(resource_address, key) {
                    Some(n) => {
                        self.non_fungibles.insert(k, crate::assoc::DupValue::dup(&n));
                        proof {
                            assert(self.view().non_fungibles =~= old(self).view().non_fungibles);
                            assert(self.view() == old(self).view());
                        }
                        Some(n)
                    },
                    None => None,
                }
            },
        }
    }

    /// Stages a non-fungible write.
    pub fn put_non_fungible(
        &mut self,
        resource_address: Address,
        key: NonFungibleKey,
        non_fungible: NonFungible,
    )
        requires
            old(self).inv(),
        ensures
            final(self).inv(),
            final(self).ledger_view() == old(self).ledger_view(),
            final(self).view() == (TrackV {
                non_fungibles: old(self).view().non_fungibles.insert(
                    (resource_address@, key@),
                    non_fungible@,
                ),
                updated_non_fungibles: old(self).view().updated_non_fungibles.insert(
                    (resource_address@, key@),
                ),
                ..old(self).view()
            }),
    {
        let k = (resource_address, key);
        self.updated_non_fungibles.insert(k.key_dup());
        self.non_fungibles.insert(k, non_fungible);
        proof {
            assert(self.view().non_fungibles =~= old(self).view().non_fungibles.insert(
                (resource_address@, key@),
                non_fungible@,
            ));
        }
    }

    /// Starts the root frame of the transaction.  The frame is seeded with
    /// the virtual signature bucket: a non-fungible bucket of the signature
    /// token whose keys are the signers' public keys, under the reserved
    /// bucket and proof ids.
    pub fn start_process(&self, verbose: bool) -> (r: Process)
        requires
            self.inv(),
        ensures
            r.wf(),
            ({
                let sig = BucketV {
                    resource_address: crate::types::AddressV::ResourceDef(
                        crate::types::wk_body(5),
                    ),
                    resource_type: ResourceType::NonFungible,
                    contents: SupplyV::NonFungible(signer_key_set(self.view().signers)),
                };
                r@ == (ProcessV {
                    depth: 0,
                    buckets: Map::<Bid, BucketV>::empty().insert(Bid(0u32), sig),
                    consumed: Map::empty(),
                    proofs: Map::<Rid, BucketV>::empty().insert(Rid(1u32), sig),
                    worktop: Map::empty(),
                    unclaimed_vaults: Map::empty(),
                })
            }),
    {
        let keys = signature_keys(&self.transaction_signers);
        let bucket = Bucket::new(
            crate::types::ecdsa_token(),
            ResourceType::NonFungible,
            Supply::NonFungible { keys },
        );
        let mut process = Process::new(0, verbose);
        process.create_virtual_bucket_ref(
            crate::types::ecdsa_token_bid(),
            crate::types::ecdsa_token_rid(),
            bucket,
        );
        process
    }

    /// Loads the parsed module of the package at an address, through the
    /// code cache.  Running the module belongs to the host VM; here it is
    /// only located, parsed and cached.
    pub fn load_module(&mut self, address: &Address) -> (r: Option<wasmi::Module>)
        requires
            old(self).inv(),
        ensures
            final(self).inv(),
            final(self).view() == old(self).view(),
            final(self).ledger_view() == old(self).ledger_view(),
            r is Some ==> old(self).view().packages.contains_key(address@),
            !old(self).view().packages.contains_key(address@) ==> r is None,
            old(self).view().packages.contains_key(address@)
                && crate::code_cache::wasm_parses(old(self).view().packages[address@]) ==> r
                is Some,
    {
        match self.get_package(address) {
            Some(package) => self.code_cache.load(address, package.code()),
            None => None,
        }
    }

    /// The next identifier slot, without consuming it.
    pub fn peek_next_id(&self) -> (r: u32)
        ensures
            r == self.view().next_id,
    {
        self.id_allocator.peek()
    }

    /// Creates a new package address, recording the new entity.
    pub fn new_package_address(&mut self) -> (r: Address)
        requires
            old(self).inv(),
            old(self).view().next_id < u32::MAX,
        ensures
            final(self).inv(),
            final(self).ledger_view() == old(self).ledger_view(),
            r.wf(),
            r@ == AddressV::Package(
                derived_body(old(self).view().transaction_hash, old(self).view().next_id),
            ),
            final(self).view() == (TrackV {
                next_id: (old(self).view().next_id + 1) as u32,
                new_entities: old(self).view().new_entities.push(r@),
                ..old(self).view()
            }),
    {
        let a = match self.id_allocator.new_package_address(&self.transaction_hash) {
            Ok(a) => a,
            Err(_) => vstd::pervasive::unreached(),
        };
        self.new_entities.push(a.key_dup());
        proof {
            assert(self.view().new_entities =~= old(self).view().new_entities.push(a@));
        }
        a
    }

    /// Creates a new component address, recording the new entity.
    pub fn new_component_address(&mut self) -> (r: Address)
        requires
            old(self).inv(),
            old(self).view().next_id < u32::MAX,
        ensures
            final(self).inv(),
            final(self).ledger_view() == old(self).ledger_view(),
            r.wf(),
            r@ == AddressV::Component(
                derived_body(old(self).view().transaction_hash, old(self).view().next_id),
            ),
            final(self).view() == (TrackV {
                next_id: (old(self).view().next_id + 1) as u32,
                new_entities: old(self).view().new_entities.push(r@),
                ..old(self).view()
            }),
    {
        let a = match self.id_allocator.new_component_address(&self.transaction_hash) {
            Ok(a) => a,
            Err(_) => vstd::pervasive::unreached(),
        };
        self.new_entities.push(a.key_dup());
        proof {
            assert(self.view().new_entities =~= old(self).view().new_entities.push(a@));
        }
        a
    }

    /// Creates a new resource definition address, recording the new entity.
    pub fn new_resource_address(&mut self) -> (r: Address)
        requires
            old(self).inv(),
            old(self).view().next_id < u32::MAX,
        ensures
            final(self).inv(),
            final(self).ledger_view() == old(self).ledger_view(),
            r.wf(),
            r@ == AddressV::ResourceDef(
                derived_body(old(self).view().transaction_hash, old(self).view().next_id),
            ),
            final(self).view() == (TrackV {
                next_id: (old(self).view().next_id + 1) as u32,
                new_entities: old(self).view().new_entities.push(r@),
                ..old(self).view()
            }),
    {
        let a = match self.id_allocator.new_resource_address(&self.transaction_hash) {
            Ok(a) => a,
            Err(_) => vstd::pervasive::unreached(),
        };
        self.new_entities.push(a.key_dup());
        proof {
            assert(self.view().new_entities =~= old(self).view().new_entities.push(a@));
        }
        a
    }

    /// Creates a new UUID.
    pub fn new_uuid(&mut self) -> (r: u128)
        requires
            old(self).inv(),
            old(self).view().next_id < u32::MAX,
        ensures
            final(self).inv(),
            final(self).ledger_view() == old(self).ledger_view(),
            r == derived_uuid(old(self).view().transaction_hash, old(self).view().next_id),
            final(self).view() == (TrackV {
                next_id: (old(self).view().next_id + 1) as u32,
                ..old(self).view()
            }),
    {
        match self.id_allocator.new_uuid(&self.transaction_hash) {
            Ok(u) => u,
            Err(_) => vstd::pervasive::unreached(),
        }
    }

    /// Creates a new bucket ID.
    pub fn new_bid(&mut self) -> (r: Bid)
        requires
            old(self).inv(),
            old(self).view().next_id < u32::MAX,
        ensures
            final(self).inv(),
            final(self).ledger_view() == old(self).ledger_view(),
            r == Bid(old(self).view().next_id),
            final(self).view() == (TrackV {
                next_id: (old(self).view().next_id + 1) as u32,
                ..old(self).view()
            }),
    {
        match self.id_allocator.new_bid() {
            Ok(b) => b,
            Err(_) => vstd::pervasive::unreached(),
        }
    }

    /// Creates a new proof ID.
    pub fn new_rid(&mut self) -> (r: Rid)
        requires
            old(self).inv(),
            old(self).view().next_id < u32::MAX,
        ensures
            final(self).inv(),
            final(self).ledger_view() == old(self).ledger_view(),
            r == Rid(old(self).view().next_id),
            final(self).view() == (TrackV {
                next_id: (old(self).view().next_id + 1) as u32,
                ..old(self).view()
            }),
    {
        match self.id_allocator.new_rid() {
            Ok(b) => b,
            Err(_) => vstd::pervasive::unreached(),
        }
    }

    /// Creates a new vault ID.
    pub fn new_vid(&mut self) -> (r: Vid)
        requires
            old(self).inv(),
            old(self).view().next_id < u32::MAX,
        ensures
            final(self).inv(),
            final(self).ledger_view() == old(self).ledger_view(),
            r@ == (old(self).view().transaction_hash, old(self).view().next_id),
            final(self).view() == (TrackV {
                next_id: (old(self).view().next_id + 1) as u32,
                ..old(self).view()
            }),
    {
        match self.id_allocator.new_vid(&self.transaction_hash) {
            Ok(v) => v,
            Err(_) => vstd::pervasive::unreached(),
        }
    }

    /// Creates a new lazy map ID.
    pub fn new_mid(&mut self) -> (r: Mid)
        requires
            old(self).inv(),
            old(self).view().next_id < u32::MAX,
        ensures
            final(self).inv(),
            final(self).ledger_view() == old(self).ledger_view(),
            r@ == (old(self).view().transaction_hash, old(self).view().next_id),
            r.wf(),
            final(self).view() == (TrackV {
                next_id: (old(self).view().next_id + 1) as u32,
                ..old(self).view()
            }),
    {
        match self.id_allocator.new_mid(&self.transaction_hash) {
            Ok(m) => m,
            Err(_) => vstd::pervasive::unreached(),
        }
    }

    /// Mints one non-fungible unit: checks that the key does not exist yet,
    /// raises the supply under the mint authority rule, and stores the
    /// unit's data.
    pub fn mint_non_fungible(
        &mut self,
        resource_address: &Address,
        key: &NonFungibleKey,
        immutable_data: Vec<u8>,
        mutable_data: Vec<u8>,
        badge: Option<Address>,
    ) -> (r: Result<(), TrackError>)
        requires
            old(self).inv(),
        ensures
            final(self).inv(),
            final(self).ledger_view() == old(self).ledger_view(),
            ({
                let v = old(self).view();
                let nf_key = (resource_address@, key@);
                if !v.resource_defs.contains_key(resource_address@) {
                    r == Err::<(), TrackError>(TrackError::ResourceDefNotFound) && final(self).view() == v
                } else if v.non_fungibles.contains_key(nf_key) {
                    r == Err::<(), TrackError>(TrackError::NonFungibleAlreadyExists) && final(self).view() == v
                } else {
                    let d = v.resource_defs[resource_address@];
                    if !(d.flags & crate::resource_flags::MINTABLE
                        == crate::resource_flags::MINTABLE) {
                        r == Err::<(), TrackError>(
                            TrackError::ResourceError(ResourceDefError::OperationNotAllowed),
                        ) && final(self).view() == v
                    } else if !crate::resource_def::permission_granted(
                        d.authorities,
                        &badge,
                        crate::resource_flags::MAY_MINT,
                    ) {
                        r == Err::<(), TrackError>(
                            TrackError::ResourceError(ResourceDefError::PermissionNotAllowed),
                        ) && final(self).view() == v
                    } else if d.resource_type matches crate::resource_def::ResourceType::Fungible { .. } {
                        r == Err::<(), TrackError>(
                            TrackError::ResourceError(
                                ResourceDefError::TypeAndSupplyNotMatching,
                            ),
                        ) && final(self).view() == v
                    } else if d.total_supply + 1 > i128::MAX {
                        r == Err::<(), TrackError>(
                            TrackError::ResourceError(
                                ResourceDefError::InvalidAmount(crate::decimal::Decimal(1)),
                            ),
                        ) && final(self).view() == v
                    } else {
                        r == Ok::<(), TrackError>(()) && final(self).view() == (TrackV {
                            resource_defs: v.resource_defs.insert(
                                resource_address@,
                                ResourceDefV { total_supply: d.total_supply + 1, ..d },
                            ),
                            updated_resource_defs: v.updated_resource_defs.insert(
                                resource_address@,
                            ),
                            non_fungibles: v.non_fungibles.insert(
                                nf_key,
                                (immutable_data@, mutable_data@),
                            ),
                            updated_non_fungibles: v.updated_non_fungibles.insert(nf_key),
                            ..v
                        })
                    }
                }
            }),
    {
        let mut def = match self.get_resource_def(resource_address) {
            Some(d) => d,
            None => {
                return Err(TrackError::ResourceDefNotFound);
            },
        };
        match self.get_non_fungible(resource_address, key) {
            Some(_) => {
                return Err(TrackError::NonFungibleAlreadyExists);
            },
            None => {},
        }
        let mut keys: AssocSet<NonFungibleKey> = AssocSet::new();
        keys.insert(key.key_dup());
        proof {
            keys.lemma_card();
        }
        match def.mint(&Supply::NonFungible { keys }, badge) {
            Ok(_) => {},
            Err(e) => {
                return Err(TrackError::ResourceError(e));
            },
        }
        self.put_resource_def(resource_address.key_dup(), def);
        self.put_non_fungible(
            resource_address.key_dup(),
            key.key_dup(),
            NonFungible::new(immutable_data, mutable_data),
        );
        Ok(())
    }

    /// Replaces the mutable data of a non-fungible unit, under its
    /// resource's individual-metadata rule.
    pub fn update_non_fungible_data(
        &mut self,
        resource_address: &Address,
        key: &NonFungibleKey,
        new_mutable_data: Vec<u8>,
        badge: Option<Address>,
    ) -> (r: Result<(), TrackError>)
        requires
            old(self).inv(),
        ensures
            final(self).inv(),
            final(self).ledger_view() == old(self).ledger_view(),
            ({
                let v = old(self).view();
                let nf_key = (resource_address@, key@);
                if !v.resource_defs.contains_key(resource_address@) {
                    r == Err::<(), TrackError>(TrackError::ResourceDefNotFound) && final(self).view() == v
                } else if !(v.resource_defs[resource_address@].flags
                    & crate::resource_flags::INDIVIDUAL_METADATA_MUTABLE
                    == crate::resource_flags::INDIVIDUAL_METADATA_MUTABLE) {
                    r == Err::<(), TrackError>(
                        TrackError::ResourceError(ResourceDefError::OperationNotAllowed),
                    ) && final(self).view() == v
                } else if !crate::resource_def::permission_granted(
                    v.resource_defs[resource_address@].authorities,
                    &badge,
                    crate::resource_flags::MAY_CHANGE_INDIVIDUAL_METADATA,
                ) {
                    r == Err::<(), TrackError>(
                        TrackError::ResourceError(ResourceDefError::PermissionNotAllowed),
                    ) && final(self).view() == v
                } else if !v.non_fungibles.contains_key(nf_key) {
                    r == Err::<(), TrackError>(TrackError::NonFungibleNotFound) && final(self).view() == v
                } else {
                    r == Ok::<(), TrackError>(()) && final(self).view() == (TrackV {
                        non_fungibles: v.non_fungibles.insert(
                            nf_key,
                            (v.non_fungibles[nf_key].0, new_mutable_data@),
                        ),
                        updated_non_fungibles: v.updated_non_fungibles.insert(nf_key),
                        ..v
                    })
                }
            }),
    {
        let def = match self.get_resource_def(resource_address) {
            Some(d) => d,
            None => {
                return Err(TrackError::ResourceDefNotFound);
            },
        };
        match def.check_update_non_fungible_mutable_data_auth(badge) {
            Ok(_) => {},
            Err(e) => {
                return Err(TrackError::ResourceError(e));
            },
        }
        let mut non_fungible = match self.get_non_fungible(resource_address, key) {
            Some(n) => n,
            None => {
                return Err(TrackError::NonFungibleNotFound);
            },
        };
        non_fungible.set_mutable_data(new_mutable_data);
        self.put_non_fungible(resource_address.key_dup(), key.key_dup(), non_fungible);
        Ok(())
    }

    /// Hands the store back, once the transaction is over.
    pub fn into_ledger(self) -> (r: S)
        requires
            self.inv(),
        ensures
            r.store_inv(),
            r.store_view() == self.ledger_view(),
    {
        self.ledger
    }

    /// Commits the staged writes to the underlying store.  Exactly the
    /// updated keys are written, with their staged values; every other key
    /// of the store is untouched, and the state a reader of this track sees
    /// does not change.  Afterwards the store agrees with that state in
    /// every substate kind: everything staged has landed and nothing else
    /// has moved, so no quantity is lost or forged at the commit boundary.
    pub fn commit(&mut self)
        requires
            old(self).inv(),
        ensures
            final(self).inv(),
            final(self).view() == old(self).view(),
            final(self).ledger_view().epoch == old(self).ledger_view().epoch,
            final(self).ledger_view().packages == old(self).view().packages,
            final(self).ledger_view().components == old(self).view().components,
            final(self).ledger_view().resource_defs == old(self).view().resource_defs,
            final(self).ledger_view().lazy_maps == old(self).view().lazy_maps,
            final(self).ledger_view().vaults == old(self).view().vaults,
            final(self).ledger_view().non_fungibles == old(self).view().non_fungibles,
            forall|k: AddressV|
                old(self).view().updated_packages.contains(k) ==> final(self).ledger_view().packages.contains_key(k) && final(self).ledger_view().packages[k] == old(self).view().packages[k],
            forall|k: AddressV|
                !old(self).view().updated_packages.contains(k) ==> final(self).ledger_view().packages.contains_key(k) == old(self).ledger_view().packages.contains_key(k) && (old(self).ledger_view().packages.contains_key(k) ==> final(self).ledger_view().packages[k] == old(self).ledger_view().packages[k]),
            forall|k: AddressV|
                old(self).view().updated_components.contains(k) ==> final(self).ledger_view().components.contains_key(k) && final(self).ledger_view().components[k] == old(self).view().components[k],
            forall|k: AddressV|
                !old(self).view().updated_components.contains(k) ==> final(self).ledger_view().components.contains_key(k) == old(self).ledger_view().components.contains_key(k) && (old(self).ledger_view().components.contains_key(k) ==> final(self).ledger_view().components[k] == old(self).ledger_view().components[k]),
            forall|k: AddressV|
                old(self).view().updated_resource_defs.contains(k) ==> final(self).ledger_view().resource_defs.contains_key(k) && final(self).ledger_view().resource_defs[k] == old(self).view().resource_defs[k],
            forall|k: AddressV|
                !old(self).view().updated_resource_defs.contains(k) ==> final(self).ledger_view().resource_defs.contains_key(k) == old(self).ledger_view().resource_defs.contains_key(k) && (old(self).ledger_view().resource_defs.contains_key(k) ==> final(self).ledger_view().resource_defs[k] == old(self).ledger_view().resource_defs[k]),
            forall|k: (AddressV, (Seq<u8>, u32))|
                old(self).view().updated_lazy_maps.contains(k) ==> final(self).ledger_view().lazy_maps.contains_key(k) && final(self).ledger_view().lazy_maps[k] == old(self).view().lazy_maps[k],
            forall|k: (AddressV, (Seq<u8>, u32))|
                !old(self).view().updated_lazy_maps.contains(k) ==> final(self).ledger_view().lazy_maps.contains_key(k) == old(self).ledger_view().lazy_maps.contains_key(k) && (old(self).ledger_view().lazy_maps.contains_key(k) ==> final(self).ledger_view().lazy_maps[k] == old(self).ledger_view().lazy_maps[k]),
            forall|k: (AddressV, (Seq<u8>, u32))|
                old(self).view().updated_vaults.contains(k) ==> final(self).ledger_view().vaults.contains_key(k) && final(self).ledger_view().vaults[k]
                    == old(self).view().vaults[k],
            forall|k: (AddressV, (Seq<u8>, u32))|
                !old(self).view().updated_vaults.contains(k) ==> final(self).ledger_view().vaults.contains_key(k) == old(self).ledger_view().vaults.contains_key(k) && (old(self).ledger_view().vaults.contains_key(k) ==> final(self).ledger_view().vaults[k]
                    == old(self).ledger_view().vaults[k]),
            forall|k: (AddressV, Seq<u8>)|
                old(self).view().updated_non_fungibles.contains(k) ==> final(self).ledger_view().non_fungibles.contains_key(k) && final(self).ledger_view().non_fungibles[k] == old(self).view().non_fungibles[k],
            forall|k: (AddressV, Seq<u8>)|
                !old(self).view().updated_non_fungibles.contains(k) ==> final(self).ledger_view().non_fungibles.contains_key(k) == old(self).ledger_view().non_fungibles.contains_key(k) && (old(self).ledger_view().non_fungibles.contains_key(k) ==> final(self).ledger_view().non_fungibles[k] == old(self).ledger_view().non_fungibles[k]),
    {
        commit_packages(&mut self.ledger, &self.packages, &self.updated_packages);
        commit_components(&mut self.ledger, &self.components, &self.updated_components);
        commit_resource_defs(&mut self.ledger, &self.resource_defs, &self.updated_resource_defs);
        commit_lazy_maps(&mut self.ledger, &self.lazy_maps, &self.updated_lazy_maps);
        commit_vaults(&mut self.ledger, &self.vaults, &self.updated_vaults);
        commit_non_fungibles(&mut self.ledger, &self.non_fungibles, &self.updated_non_fungibles);
        proof {
            assert forall|k: AddressV| #![all_triggers]
                self.view().packages.contains_key(k) == old(self).view().packages.contains_key(k) && (old(self).view().packages.contains_key(k)
                ==> self.view().packages[k] == old(self).view().packages[k]) by {
                if !self.packages@.contains_key(k) {
                    assert(!old(self).updated_packages@.contains(k));
                }
            }
            assert(self.view().packages =~= old(self).view().packages);
            assert forall|k: AddressV| #![all_triggers]
                self.view().components.contains_key(k) == old(self).view().components.contains_key(k) && (old(self).view().components.contains_key(k) ==> self.view().components[k] == old(self).view().components[k]) by {
                if !self.components@.contains_key(k) {
                    assert(!old(self).updated_components@.contains(k));
                }
            }
            assert(self.view().components =~= old(self).view().components);
            assert forall|k: AddressV| #![all_triggers]
                self.view().resource_defs.contains_key(k) == old(self).view().resource_defs.contains_key(k) && (old(self).view().resource_defs.contains_key(k) ==> self.view().resource_defs[k] == old(self).view().resource_defs[k]) by {
                if !self.resource_defs@.contains_key(k) {
                    assert(!old(self).updated_resource_defs@.contains(k));
                }
            }
            assert(self.view().resource_defs =~= old(self).view().resource_defs);
            assert forall|k: (AddressV, (Seq<u8>, u32))| #![all_triggers]
                self.view().lazy_maps.contains_key(k) == old(self).view().lazy_maps.contains_key(k) && (old(self).view().lazy_maps.contains_key(k)
                ==> self.view().lazy_maps[k] == old(self).view().lazy_maps[k]) by {
                if !self.lazy_maps@.contains_key(k) {
                    assert(!old(self).updated_lazy_maps@.contains(k));
                }
            }
            assert(self.view().lazy_maps =~= old(self).view().lazy_maps);
            assert forall|k: (AddressV, (Seq<u8>, u32))| #![all_triggers]
                self.view().vaults.contains_key(k) == old(self).view().vaults.contains_key(k)
                    && (old(self).view().vaults.contains_key(k) ==> self.view().vaults[k]
                    == old(self).view().vaults[k]) by {
                if !self.vaults@.contains_key(k) {
                    assert(!old(self).updated_vaults@.contains(k));
                }
            }
            assert(self.view().vaults =~= old(self).view().vaults);
            assert forall|k: (AddressV, Seq<u8>)| #![all_triggers]
                self.view().non_fungibles.contains_key(k) == old(self).view().non_fungibles.contains_key(k) && (old(self).view().non_fungibles.contains_key(k) ==> self.view().non_fungibles[k] == old(self).view().non_fungibles[k]) by {
                if !self.non_fungibles@.contains_key(k) {
                    assert(!old(self).updated_non_fungibles@.contains(k));
                }
            }
            assert(self.view().non_fungibles =~= old(self).view().non_fungibles);
            assert(self.view() == old(self).view());
            assert forall|k: AddressV| #![all_triggers]
                self.ledger.store_view().packages.contains_key(k) == old(
                self,
            ).view().packages.contains_key(k) && (old(self).view().packages.contains_key(k)
                ==> self.ledger.store_view().packages[k] == old(self).view().packages[k]) by {
                if old(self).packages@.contains_key(k) && !old(
                    self,
                ).updated_packages@.contains(k) {
                    assert(old(self).ledger_view().packages.contains_key(k));
                }
            }
            assert(self.ledger.store_view().packages =~= old(self).view().packages);
            assert forall|k: AddressV| #![all_triggers]
                self.ledger.store_view().components.contains_key(k) == old(
                self,
            ).view().components.contains_key(k) && (old(self).view().components.contains_key(
                k,
            ) ==> self.ledger.store_view().components[k] == old(
                self,
            ).view().components[k]) by {
                if old(self).components@.contains_key(k) && !old(
                    self,
                ).updated_components@.contains(k) {
                    assert(old(self).ledger_view().components.contains_key(k));
                }
            }
            assert(self.ledger.store_view().components =~= old(self).view().components);
            assert forall|k: AddressV| #![all_triggers]
                self.ledger.store_view().resource_defs.contains_key(k) == old(
                self,
            ).view().resource_defs.contains_key(k) && (old(
                self,
            ).view().resource_defs.contains_key(k)
                ==> self.ledger.store_view().resource_defs[k] == old(
                self,
            ).view().resource_defs[k]) by {
                if old(self).resource_defs@.contains_key(k) && !old(
                    self,
                ).updated_resource_defs@.contains(k) {
                    assert(old(self).ledger_view().resource_defs.contains_key(k));
                }
            }
            assert(self.ledger.store_view().resource_defs =~= old(
                self,
            ).view().resource_defs);
            assert forall|k: (AddressV, (Seq<u8>, u32))| #![all_triggers]
                self.ledger.store_view().lazy_maps.contains_key(k) == old(
                self,
            ).view().lazy_maps.contains_key(k) && (old(self).view().lazy_maps.contains_key(k)
                ==> self.ledger.store_view().lazy_maps[k] == old(
                self,
            ).view().lazy_maps[k]) by {
                if old(self).lazy_maps@.contains_key(k) && !old(
                    self,
                ).updated_lazy_maps@.contains(k) {
                    assert(old(self).ledger_view().lazy_maps.contains_key(k));
                }
            }
            assert(self.ledger.store_view().lazy_maps =~= old(self).view().lazy_maps);
            assert forall|k: (AddressV, (Seq<u8>, u32))| #![all_triggers]
                self.ledger.store_view().vaults.contains_key(k) == old(
                self,
            ).view().vaults.contains_key(k) && (old(self).view().vaults.contains_key(k)
                ==> self.ledger.store_view().vaults[k] == old(self).view().vaults[k]) by {
                if old(self).vaults@.contains_key(k) && !old(self).updated_vaults@.contains(
                    k,
                ) {
                    assert(old(self).ledger_view().vaults.contains_key(k));
                }
            }
            assert(self.ledger.store_view().vaults =~= old(self).view().vaults);
            assert forall|k: (AddressV, Seq<u8>)| #![all_triggers]
                self.ledger.store_view().non_fungibles.contains_key(k) == old(
                self,
            ).view().non_fungibles.contains_key(k) && (old(
                self,
            ).view().non_fungibles.contains_key(k)
                ==> self.ledger.store_view().non_fungibles[k] == old(
                self,
            ).view().non_fungibles[k]) by {
                if old(self).non_fungibles@.contains_key(k) && !old(
                    self,
                ).updated_non_fungibles@.contains(k) {
                    assert(old(self).ledger_view().non_fungibles.contains_key(k));
                }
            }
            assert(self.ledger.store_view().non_fungibles =~= old(
                self,
            ).view().non_fungibles);
        }
    }
}

} // verus!
