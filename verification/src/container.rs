//! Linear resource containers: transient buckets and persistent vaults.
//!
//! A container holds a quantity of exactly one resource class, either a
//! fungible amount or a set of non-fungible keys.  Quantity moves between
//! containers and is never created or lost by a move: the transition
//! functions below say exactly what each operation does, and the laws at the
//! end of the module prove conservation, key uniqueness and the put/take
//! round trip from them.

use vstd::prelude::*;

use crate::assoc::{AssocSet, MapKey};
use crate::decimal::Decimal;
use crate::resource_def::{amount_ok, permission_granted, ResourceDef, ResourceType, Supply,
    SupplyV};
use crate::resource_flags::RESTRICTED_TRANSFER;
use crate::types::{Address, AddressV, NonFungibleKey};

verus! {

/// An error when accessing a container.
#[derive(Debug, Clone, PartialEq, Eq, Structural)]
pub enum BucketError {
    ResourceNotMatching,
    InsufficientBalance,
    InvalidAmount(Decimal),
    UnsupportedOperation,
    NonFungibleNotFound,
    DuplicatedNonFungibleKey,
    PermissionNotAllowed,
}

/// The abstract value of a container.
pub struct BucketV {
    pub resource_address: AddressV,
    pub resource_type: ResourceType,
    pub contents: SupplyV,
}

/// A container's abstract value is consistent: the contents fit the resource
/// type, a fungible amount is representable, and the divisibility is in
/// range.
pub open spec fn bucket_v_wf(v: BucketV) -> bool {
    &&& v.resource_type.wf()
    &&& match (v.resource_type, v.contents) {
        (ResourceType::Fungible { .. }, SupplyV::Fungible(x)) => 0 <= x <= i128::MAX,
        (ResourceType::NonFungible, SupplyV::NonFungible(keys)) => keys.finite(),
        _ => false,
    }
}

/// What `put` does: the incoming contents join the receiver's, provided the
/// resource matches, the sum is representable, and no key repeats.
pub open spec fn spec_put(a: BucketV, b: BucketV) -> Result<BucketV, BucketError> {
    if a.resource_address != b.resource_address {
        Err(BucketError::ResourceNotMatching)
    } else {
        match (a.contents, b.contents) {
            (SupplyV::Fungible(x), SupplyV::Fungible(y)) => {
                if x + y > i128::MAX {
                    Err(BucketError::InvalidAmount(Decimal(y as i128)))
                } else {
                    Ok(BucketV { contents: SupplyV::Fungible(x + y), ..a })
                }
            },
            (SupplyV::NonFungible(ks), SupplyV::NonFungible(ko)) => {
                if exists|k: Seq<u8>| ks.contains(k) && ko.contains(k) {
                    Err(BucketError::DuplicatedNonFungibleKey)
                } else {
                    Ok(BucketV { contents: SupplyV::NonFungible(ks.union(ko)), ..a })
                }
            },
            _ => Err(BucketError::UnsupportedOperation),
        }
    }
}

/// What `take` does: the amount leaves the container into a new one of the
/// same resource, provided it is valid and covered.
pub open spec fn spec_take(a: BucketV, amount: int) -> Result<(BucketV, BucketV), BucketError> {
    match a.contents {
        SupplyV::Fungible(x) => {
            if !amount_ok(a.resource_type, amount) {
                Err(BucketError::InvalidAmount(Decimal(amount as i128)))
            } else if amount > x {
                Err(BucketError::InsufficientBalance)
            } else {
                Ok(
                    (
                        BucketV { contents: SupplyV::Fungible(x - amount), ..a },
                        BucketV { contents: SupplyV::Fungible(amount), ..a },
                    ),
                )
            }
        },
        SupplyV::NonFungible(_) => Err(BucketError::UnsupportedOperation),
    }
}

/// What `take_non_fungible` does: the key leaves the container into a new
/// singleton container of the same resource.
pub open spec fn spec_take_non_fungible(a: BucketV, key: Seq<u8>) -> Result<
    (BucketV, BucketV),
    BucketError,
> {
    match a.contents {
        SupplyV::NonFungible(ks) => {
            if !ks.contains(key) {
                Err(BucketError::NonFungibleNotFound)
            } else {
                Ok(
                    (
                        BucketV { contents: SupplyV::NonFungible(ks.remove(key)), ..a },
                        BucketV {
                            contents: SupplyV::NonFungible(Set::empty().insert(key)),
                            ..a
                        },
                    ),
                )
            }
        },
        SupplyV::Fungible(_) => Err(BucketError::UnsupportedOperation),
    }
}

/// A transient container, owned by one frame during a transaction.
pub struct Bucket {
    resource_address: Address,
    resource_type: ResourceType,
    supply: Supply,
}

impl View for Bucket {
    type V = BucketV;

    closed spec fn view(&self) -> BucketV {
        BucketV {
            resource_address: self.resource_address@,
            resource_type: self.resource_type,
            contents: self.supply@,
        }
    }
}

impl Bucket {
    pub closed spec fn wf(&self) -> bool {
        &&& bucket_v_wf(self@)
        &&& self.supply.wf()
    }

    pub fn new(resource_address: Address, resource_type: ResourceType, supply: Supply) -> (r:
        Self)
        requires
            resource_type.wf(),
            supply.wf(),
            match (resource_type, supply) {
                (ResourceType::Fungible { .. }, Supply::Fungible { amount }) => amount@ >= 0,
                (ResourceType::NonFungible, Supply::NonFungible { .. }) => true,
                _ => false,
            },
        ensures
            r.wf(),
            r@ == (BucketV { resource_address: resource_address@, resource_type, contents:
                supply@ }),
    {
        proof {
            match &supply {
                Supply::NonFungible { keys } => keys.lemma_card(),
                Supply::Fungible { .. } => (),
            }
        }
        Bucket { resource_address, resource_type, supply }
    }

    pub fn resource_address(&self) -> (r: Address)
        ensures
            r@ == self@.resource_address,
    {
        self.resource_address.clone()
    }

    pub fn resource_type(&self) -> (r: ResourceType)
        ensures
            r == self@.resource_type,
    {
        self.resource_type
    }

    /// The quantity held: the amount, or the number of keys.
    pub fn amount(&self) -> (r: Decimal)
        requires
            self.wf(),
        ensures
            r@ == self@.contents.amount(),
    {
        match &self.supply {
            Supply::Fungible { amount } => *amount,
            Supply::NonFungible { keys } => {
                proof {
                    keys.lemma_card();
                }
                Decimal::from_usize(keys.len())
            },
        }
    }

    pub fn is_empty(&self) -> (r: bool)
        requires
            self.wf(),
        ensures
            r == (self@.contents.amount() == 0),
    {
        self.amount().is_zero()
    }

    /// Moves the whole contents of `other` into this container.
    pub fn put(&mut self, other: Bucket) -> (r: Result<(), BucketError>)
        requires
            old(self).wf(),
            other.wf(),
        ensures
            final(self).wf(),
            match spec_put(old(self)@, other@) {
                Ok(nv) => r == Ok::<(), BucketError>(()) && final(self)@ == nv,
                Err(e) => r == Err::<(), BucketError>(e) && *final(self) == *old(self),
            },
    {
        if !self.resource_address.equals(&other.resource_address) {
            return Err(BucketError::ResourceNotMatching);
        }
        let Bucket { supply: other_supply, .. } = other;
        match (&mut self.supply, other_supply) {
            (Supply::Fungible { amount }, Supply::Fungible { amount: other_amount }) => {
                match amount.checked_add(&other_amount) {
                    Some(t) => {
                        *amount = t;
                        Ok(())
                    },
                    None => Err(BucketError::InvalidAmount(other_amount)),
                }
            },
            (Supply::NonFungible { keys }, Supply::NonFungible { keys: other_keys }) => {
                if keys.union_disjoint(other_keys) {
                    proof {
                        keys.lemma_card();
                    }
                    Ok(())
                } else {
                    Err(BucketError::DuplicatedNonFungibleKey)
                }
            },
            _ => Err(BucketError::UnsupportedOperation),
        }
    }

    /// Takes a fungible amount out into a new container.
    pub fn take(&mut self, amount: Decimal) -> (r: Result<Bucket, BucketError>)
        requires
            old(self).wf(),
        ensures
            final(self).wf(),
            match spec_take(old(self)@, amount@) {
                Ok(pair) => r matches Ok(b) && b.wf() && final(self)@ == pair.0 && b@ == pair.1,
                Err(e) => r == Err::<Bucket, BucketError>(e) && *final(self) == *old(self),
            },
    {
        match &mut self.supply {
            Supply::Fungible { amount: held } => {
                match crate::resource_def::check_amount_for(self.resource_type, amount) {
                    Ok(_) => {},
                    Err(_) => {
                        return Err(BucketError::InvalidAmount(amount));
                    },
                }
                if held.lt(&amount) {
                    return Err(BucketError::InsufficientBalance);
                }
                let rest = match held.checked_sub(&amount) {
                    Some(t) => t,
                    None => {
                        return Err(BucketError::InsufficientBalance);
                    },
                };
                *held = rest;
                Ok(
                    Bucket {
                        resource_address: self.resource_address.clone(),
                        resource_type: self.resource_type,
                        supply: Supply::Fungible { amount },
                    },
                )
            },
            Supply::NonFungible { .. } => Err(BucketError::UnsupportedOperation),
        }
    }

    /// Takes one non-fungible unit out, by key, into a new container.
    pub fn take_non_fungible(&mut self, key: &NonFungibleKey) -> (r: Result<Bucket, BucketError>)
        requires
            old(self).wf(),
        ensures
            final(self).wf(),
            match spec_take_non_fungible(old(self)@, key@) {
                Ok(pair) => r matches Ok(b) && b.wf() && final(self)@ == pair.0 && b@ == pair.1,
                Err(e) => r == Err::<Bucket, BucketError>(e) && *final(self) == *old(self),
            },
    {
        match &mut self.supply {
            Supply::NonFungible { keys } => {
                if !keys.remove(key) {
                    return Err(BucketError::NonFungibleNotFound);
                }
                let mut taken: AssocSet<NonFungibleKey> = AssocSet::new();
                taken.insert(key.key_dup());
                proof {
                    keys.lemma_card();
                    taken.lemma_card();
                    assert(taken@ =~= Set::empty().insert(key@));
                }
                Ok(
                    Bucket {
                        resource_address: self.resource_address.clone(),
                        resource_type: self.resource_type,
                        supply: Supply::NonFungible { keys: taken },
                    },
                )
            },
            Supply::Fungible { .. } => Err(BucketError::UnsupportedOperation),
        }
    }

    /// Takes several non-fungible units out at once, by key, into a new
    /// container; all of them or none.
    pub fn take_non_fungibles(&mut self, keys: &Vec<NonFungibleKey>) -> (r: Result<
        Bucket,
        BucketError,
    >)
        requires
            old(self).wf(),
        ensures
            final(self).wf(),
            ({
                let kv = keys@.map(|i: int, k: NonFungibleKey| k@);
                match old(self)@.contents {
                    SupplyV::NonFungible(ks) => {
                        if kv.no_duplicates() && (forall|i: int|
                            0 <= i < kv.len() ==> ks.contains(#[trigger] kv[i])) {
                            r matches Ok(b) && b.wf() && b@ == (BucketV {
                                resource_address: old(self)@.resource_address,
                                resource_type: old(self)@.resource_type,
                                contents: SupplyV::NonFungible(kv.to_set()),
                            }) && final(self)@ == (BucketV {
                                contents: SupplyV::NonFungible(ks.difference(kv.to_set())),
                                ..old(self)@
                            })
                        } else {
                            r == Err::<Bucket, BucketError>(BucketError::NonFungibleNotFound)
                                && *final(self) == *old(self)
                        }
                    },
                    SupplyV::Fungible(_) => r == Err::<Bucket, BucketError>(
                        BucketError::UnsupportedOperation,
                    ) && *final(self) == *old(self),
                }
            }),
    {
        let ghost kv = keys@.map(|i: int, k: NonFungibleKey| k@);
        match &mut self.supply {
            Supply::NonFungible { keys: held } => {
                if !held.remove_seq(keys) {
                    return Err(BucketError::NonFungibleNotFound);
                }
                let mut taken: AssocSet<NonFungibleKey> = AssocSet::new();
                let n = keys.len();
                let mut i: usize = 0;
                while i < n
                    invariant
                        taken.wf(),
                        n == kv.len(),
                        keys@.len() == n,
                        i <= n,
                        forall|j: int| 0 <= j < n ==> #[trigger] keys@[j]@ == kv[j],
                        forall|x: Seq<u8>| #![all_triggers]
                            taken@.contains(x) <==> (exists|j: int| 0 <= j < i && kv[j] == x),
                    decreases n - i,
                {
                    let ghost before = taken@;
                    taken.insert(keys[i].key_dup());
                    proof {
                        assert forall|x: Seq<u8>|
                            taken@.contains(x) implies (exists|j: int|
                            0 <= j < i + 1 && kv[j] == x) by {
                            if x == kv[i as int] {
                                assert(0 <= i < i + 1 && kv[i as int] == x);
                            } else {
                                assert(before.contains(x));
                                let j = choose|j: int| 0 <= j < i && kv[j] == x;
                                assert(0 <= j < i + 1 && kv[j] == x);
                            }
                        }
                        assert forall|x: Seq<u8>|
                            (exists|j: int| 0 <= j < i + 1 && kv[j] == x) implies
                            taken@.contains(x) by {
                            let j = choose|j: int| 0 <= j < i + 1 && kv[j] == x;
                            if j < i {
                                assert(before.contains(x));
                            }
                        }
                    }
                    i = i + 1;
                }
                proof {
                    assert forall|x: Seq<u8>| taken@.contains(x) == kv.to_set().contains(
                        x,
                    ) by {
                        if kv.to_set().contains(x) {
                            let j = choose|j: int| 0 <= j < kv.len() && kv[j] == x;
                        }
                        if exists|j: int| 0 <= j < n && kv[j] == x {
                            let j = choose|j: int| 0 <= j < n && kv[j] == x;
                            assert(kv.to_set().contains(x));
                        }
                    }
                    assert(taken@ =~= kv.to_set());
                    taken.lemma_card();
                }
                Ok(
                    Bucket {
                        resource_address: self.resource_address.clone(),
                        resource_type: self.resource_type,
                        supply: Supply::NonFungible { keys: taken },
                    },
                )
            },
            Supply::Fungible { .. } => Err(BucketError::UnsupportedOperation),
        }
    }

    /// The key of a singleton non-fungible container.
    pub fn get_non_fungible_key(&self) -> (r: Result<NonFungibleKey, BucketError>)
        requires
            self.wf(),
        ensures
            match r {
                Ok(k) => self@.contents matches SupplyV::NonFungible(ks) && ks.len() == 1
                    && ks.contains(k@),
                Err(e) => !(self@.contents matches SupplyV::NonFungible(ks) && ks.len() == 1),
            },
    {
        match &self.supply {
            Supply::NonFungible { keys } => {
                proof {
                    keys.lemma_card();
                }
                if keys.len() == 1 {
                    let k = keys.get_at(0).key_dup();
                    proof {
                        keys.lemma_seq_members();
                    }
                    Ok(k)
                } else {
                    Err(BucketError::UnsupportedOperation)
                }
            },
            Supply::Fungible { .. } => Err(BucketError::UnsupportedOperation),
        }
    }

    /// Whether this container holds the non-fungible unit with a key.
    pub fn contains_non_fungible(&self, key: &NonFungibleKey) -> (r: bool)
        requires
            self.wf(),
        ensures
            r == (self@.contents matches SupplyV::NonFungible(ks) && ks.contains(key@)),
    {
        match &self.supply {
            Supply::NonFungible { keys } => keys.contains(key),
            Supply::Fungible { .. } => false,
        }
    }

    /// The keys held, in insertion order; an error on a fungible container.
    pub fn get_non_fungible_keys(&self) -> (r: Result<Vec<NonFungibleKey>, BucketError>)
        requires
            self.wf(),
        ensures
            match r {
                Ok(v) => self@.contents matches SupplyV::NonFungible(ks) && v@.len() == ks.len()
                    && (forall|i: int| 0 <= i < v@.len() ==> ks.contains(#[trigger] v@[i]@)) && (
                forall|k: Seq<u8>|
                    ks.contains(k) ==> exists|i: int| 0 <= i < v@.len() && v@[i]@ == k),
                Err(e) => self@.contents matches SupplyV::Fungible(_) && e
                    == BucketError::UnsupportedOperation,
            },
    {
        match &self.supply {
            Supply::NonFungible { keys } => {
                proof {
                    keys.lemma_card();
                    keys.lemma_seq_members();
                }
                let v = keys.to_key_vec();
                proof {
                    assert forall|i: int| 0 <= i < v@.len() implies keys@.contains(
                        #[trigger] v@[i]@,
                    ) by {
                        assert(v@[i]@ == keys.seq()[i]);
                    }
                    assert forall|k: Seq<u8>| keys@.contains(k) implies exists|i: int|
                        0 <= i < v@.len() && v@[i]@ == k by {
                        let i = choose|i: int|
                            0 <= i < keys.seq().len() && keys.seq()[i] == k;
                        assert(v@[i]@ == k);
                    }
                }
                Ok(v)
            },
            Supply::Fungible { .. } => Err(BucketError::UnsupportedOperation),
        }
    }

    /// A copy with the same abstract value.
    pub fn dup(&self) -> (r: Self)
        ensures
            r@ == self@,
            r.wf() == self.wf(),
    {
        let supply = match &self.supply {
            Supply::Fungible { amount } => Supply::Fungible { amount: *amount },
            Supply::NonFungible { keys } => Supply::NonFungible { keys: keys.dup() },
        };
        Bucket {
            resource_address: self.resource_address.clone(),
            resource_type: self.resource_type,
            supply,
        }
    }
}

impl crate::assoc::DupValue for Bucket {
    fn dup(&self) -> (r: Self)
        ensures
            r@ == self@,
    {
        Bucket::dup(self)
    }
}

/// A persistent container, bound to a component and stored in the track.
pub struct Vault {
    bucket: Bucket,
}

impl View for Vault {
    type V = BucketV;

    closed spec fn view(&self) -> BucketV {
        self.bucket@
    }
}

impl Vault {
    pub closed spec fn wf(&self) -> bool {
        self.bucket.wf()
    }

    /// A vault born from the contents of a bucket.
    pub fn with_bucket(bucket: Bucket) -> (r: Self)
        requires
            bucket.wf(),
        ensures
            r.wf(),
            r@ == bucket@,
    {
        Vault { bucket }
    }

    pub fn resource_address(&self) -> (r: Address)
        ensures
            r@ == self@.resource_address,
    {
        self.bucket.resource_address()
    }

    pub fn resource_type(&self) -> (r: ResourceType)
        ensures
            r == self@.resource_type,
    {
        self.bucket.resource_type()
    }

    pub fn amount(&self) -> (r: Decimal)
        requires
            self.wf(),
        ensures
            r@ == self@.contents.amount(),
    {
        self.bucket.amount()
    }

    pub fn put(&mut self, other: Bucket) -> (r: Result<(), BucketError>)
        requires
            old(self).wf(),
            other.wf(),
        ensures
            final(self).wf(),
            match spec_put(old(self)@, other@) {
                Ok(nv) => r == Ok::<(), BucketError>(()) && final(self)@ == nv,
                Err(e) => r == Err::<(), BucketError>(e) && *final(self) == *old(self),
            },
    {
        self.bucket.put(other)
    }

    pub fn take(&mut self, amount: Decimal) -> (r: Result<Bucket, BucketError>)
        requires
            old(self).wf(),
        ensures
            final(self).wf(),
            match spec_take(old(self)@, amount@) {
                Ok(pair) => r matches Ok(b) && b.wf() && final(self)@ == pair.0 && b@ == pair.1,
                Err(e) => r == Err::<Bucket, BucketError>(e) && *final(self) == *old(self),
            },
    {
        self.bucket.take(amount)
    }

    /// As `take`, but under the resource's restricted-transfer rule.
    pub fn take_with_auth(
        &mut self,
        amount: Decimal,
        def: &ResourceDef,
        badge: Option<Address>,
    ) -> (r: Result<Bucket, BucketError>)
        requires
            old(self).wf(),
            def.wf(),
        ensures
            final(self).wf(),
            ({
                if def@.flags & RESTRICTED_TRANSFER == RESTRICTED_TRANSFER
                    && !permission_granted(
                    def@.authorities,
                    &badge,
                    crate::resource_flags::MAY_TRANSFER,
                ) {
                    r == Err::<Bucket, BucketError>(BucketError::PermissionNotAllowed)
                        && *final(self) == *old(self)
                } else {
                    match spec_take(old(self)@, amount@) {
                        Ok(pair) => r matches Ok(b) && b.wf() && final(self)@ == pair.0 && b@
                            == pair.1,
                        Err(e) => r == Err::<Bucket, BucketError>(e) && *final(self) == *old(
                            self,
                        ),
                    }
                }
            }),
    {
        match def.check_take_from_vault_auth(badge) {
            Ok(_) => self.bucket.take(amount),
            Err(_) => Err(BucketError::PermissionNotAllowed),
        }
    }

    pub fn take_non_fungible(&mut self, key: &NonFungibleKey) -> (r: Result<Bucket, BucketError>)
        requires
            old(self).wf(),
        ensures
            final(self).wf(),
            match spec_take_non_fungible(old(self)@, key@) {
                Ok(pair) => r matches Ok(b) && b.wf() && final(self)@ == pair.0 && b@ == pair.1,
                Err(e) => r == Err::<Bucket, BucketError>(e) && *final(self) == *old(self),
            },
    {
        self.bucket.take_non_fungible(key)
    }

    pub fn get_non_fungible_keys(&self) -> (r: Result<Vec<NonFungibleKey>, BucketError>)
        requires
            self.wf(),
        ensures
            match r {
                Ok(v) => self@.contents matches SupplyV::NonFungible(ks) && v@.len() == ks.len()
                    && (forall|i: int| 0 <= i < v@.len() ==> ks.contains(#[trigger] v@[i]@)) && (
                forall|k: Seq<u8>|
                    ks.contains(k) ==> exists|i: int| 0 <= i < v@.len() && v@[i]@ == k),
                Err(e) => self@.contents matches SupplyV::Fungible(_) && e
                    == BucketError::UnsupportedOperation,
            },
    {
        self.bucket.get_non_fungible_keys()
    }

    /// Takes several non-fungible units out at once, by key; all or none.
    pub fn take_non_fungibles(&mut self, keys: &Vec<NonFungibleKey>) -> (r: Result<
        Bucket,
        BucketError,
    >)
        requires
            old(self).wf(),
        ensures
            final(self).wf(),
            ({
                let kv = keys@.map(|i: int, k: NonFungibleKey| k@);
                match old(self)@.contents {
                    SupplyV::NonFungible(ks) => {
                        if kv.no_duplicates() && (forall|i: int|
                            0 <= i < kv.len() ==> ks.contains(#[trigger] kv[i])) {
                            r matches Ok(b) && b.wf() && b@ == (BucketV {
                                resource_address: old(self)@.resource_address,
                                resource_type: old(self)@.resource_type,
                                contents: SupplyV::NonFungible(kv.to_set()),
                            }) && final(self)@ == (BucketV {
                                contents: SupplyV::NonFungible(ks.difference(kv.to_set())),
                                ..old(self)@
                            })
                        } else {
                            r == Err::<Bucket, BucketError>(BucketError::NonFungibleNotFound)
                                && final(self)@ == old(self)@
                        }
                    },
                    SupplyV::Fungible(_) => r == Err::<Bucket, BucketError>(
                        BucketError::UnsupportedOperation,
                    ) && final(self)@ == old(self)@,
                }
            }),
    {
        self.bucket.take_non_fungibles(keys)
    }

    /// A copy with the same abstract value.
    pub fn dup(&self) -> (r: Self)
        ensures
            r@ == self@,
            r.wf() == self.wf(),
    {
        Vault { bucket: self.bucket.dup() }
    }
}

impl crate::assoc::DupValue for Vault {
    fn dup(&self) -> (r: Self)
        ensures
            r@ == self@,
    {
        Vault::dup(self)
    }
}

/// Law: a move conserves quantity.  When `put` succeeds, the receiver ends
/// with exactly the sum of what both containers held.
pub proof fn lemma_put_conserves(a: BucketV, b: BucketV, nv: BucketV)
    requires
        bucket_v_wf(a),
        bucket_v_wf(b),
        spec_put(a, b) == Ok::<BucketV, BucketError>(nv),
    ensures
        nv.contents.amount() == a.contents.amount() + b.contents.amount(),
{
    match (a.contents, b.contents) {
        (SupplyV::Fungible(x), SupplyV::Fungible(y)) => {
        },
        (SupplyV::NonFungible(ks), SupplyV::NonFungible(ko)) => {
            lemma_len_disjoint_union(ks, ko);
        },
        _ => {
        },
    }
}

/// Law: a take conserves quantity.  When `take` succeeds, what stays plus
/// what leaves equals what was held.
pub proof fn lemma_take_conserves(a: BucketV, amount: int, rest: BucketV, out: BucketV)
    requires
        spec_take(a, amount) == Ok::<(BucketV, BucketV), BucketError>((rest, out)),
    ensures
        rest.contents.amount() + out.contents.amount() == a.contents.amount(),
{
}

/// Law: taking one key conserves quantity and keeps every other key in place.
pub proof fn lemma_take_non_fungible_conserves(
    a: BucketV,
    key: Seq<u8>,
    rest: BucketV,
    out: BucketV,
)
    requires
        bucket_v_wf(a),
        spec_take_non_fungible(a, key) == Ok::<(BucketV, BucketV), BucketError>((rest, out)),
    ensures
        rest.contents.amount() + out.contents.amount() == a.contents.amount(),
        rest.contents matches SupplyV::NonFungible(ks) && !ks.contains(key),
        out.contents == SupplyV::NonFungible(Set::empty().insert(key)),
{
    let ks = a.contents->NonFungible_0;
    assert(ks.remove(key).len() == ks.len() - 1) by {
        assert(ks.contains(key));
    }
    assert(Set::<Seq<u8>>::empty().insert(key).len() == 1) by {
        assert(Set::<Seq<u8>>::empty().insert(key).remove(key) =~= Set::<Seq<u8>>::empty());
    }
}

/// Law: no container ever comes to hold the same non-fungible key twice.
/// Moving a bucket into a container that already holds one of its keys is
/// refused, and a successful move yields the exact disjoint union.
pub proof fn lemma_put_keeps_keys_unique(a: BucketV, b: BucketV)
    requires
        a.contents matches SupplyV::NonFungible(ks),
        b.contents matches SupplyV::NonFungible(ko),
        a.resource_address == b.resource_address,
    ensures
        (exists|k: Seq<u8>|
            a.contents->NonFungible_0.contains(k) && b.contents->NonFungible_0.contains(k))
            ==> spec_put(a, b) == Err::<BucketV, BucketError>(
            BucketError::DuplicatedNonFungibleKey,
        ),
        spec_put(a, b) matches Ok(nv) ==> nv.contents == SupplyV::NonFungible(
            a.contents->NonFungible_0.union(b.contents->NonFungible_0),
        ),
{
}

/// Law: the put/take round trip.  Putting a fungible bucket into a container
/// of the same resource and then taking the same amount back yields the
/// original container and an equal bucket.
pub proof fn lemma_put_take_round_trip(a: BucketV, b: BucketV)
    requires
        bucket_v_wf(a),
        bucket_v_wf(b),
        a.resource_address == b.resource_address,
        a.resource_type == b.resource_type,
        b.contents matches SupplyV::Fungible(y) && amount_ok(b.resource_type, y),
        spec_put(a, b) is Ok,
    ensures
        spec_take(spec_put(a, b).unwrap(), b.contents->Fungible_0) == Ok::<
            (BucketV, BucketV),
            BucketError,
        >((a, b)),
{
    let nv = spec_put(a, b).unwrap();
    let y = b.contents->Fungible_0;
    assert(a.contents is Fungible);
    let x = a.contents->Fungible_0;
    assert(a.contents == SupplyV::Fungible(x));
    assert(b.contents == SupplyV::Fungible(y));
    assert(nv.contents == SupplyV::Fungible(x + y));
    assert(spec_take(nv, y) == Ok::<(BucketV, BucketV), BucketError>(
        (
            BucketV { contents: SupplyV::Fungible(x), ..nv },
            BucketV { contents: SupplyV::Fungible(y), ..nv },
        ),
    ));
    assert(BucketV { contents: SupplyV::Fungible(x), ..nv } == a);
    assert(BucketV { contents: SupplyV::Fungible(y), ..nv } == b);
}

/// The values of a vault entry sequence stay well-formed when one leaves.
pub proof fn lemma_vault_values_wf_after_remove<K: crate::assoc::MapKey>(
    pre: Seq<(K, Vault)>,
    i: int,
)
    requires
        0 <= i < pre.len(),
        forall|a: int| 0 <= a < pre.len() ==> (#[trigger] pre[a].1).wf(),
    ensures
        forall|a: int| 0 <= a < pre.remove(i).len() ==> (#[trigger] pre.remove(i)[a].1).wf(),
{
    assert forall|a: int| 0 <= a < pre.remove(i).len() implies (#[trigger] pre.remove(
        i,
    )[a].1).wf() by {
        if a < i {
            assert(pre.remove(i)[a] == pre[a]);
        } else {
            assert(pre.remove(i)[a] == pre[a + 1]);
        }
    }
}

/// The size of a union of disjoint finite sets is the sum of their sizes.
pub proof fn lemma_len_disjoint_union<A>(s1: Set<A>, s2: Set<A>)
    requires
        s1.finite(),
        s2.finite(),
        forall|x: A| !(s1.contains(x) && s2.contains(x)),
    ensures
        s1.union(s2).len() == s1.len() + s2.len(),
    decreases s1.len(),
{
    if s1.len() == 0 {
        s1.lemma_len0_is_empty();
        assert(s1.union(s2) =~= s2);
    } else {
        let x = s1.choose();
        assert(s1.contains(x));
        lemma_len_disjoint_union(s1.remove(x), s2);
        assert(s1.remove(x).union(s2) =~= s1.union(s2).remove(x));
        assert(s1.union(s2).contains(x));
        assert(s1.union(s2).remove(x).len() == s1.union(s2).len() - 1);
    }
}

} // verus!
