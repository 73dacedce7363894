//! The definition of a resource class: its type, metadata, flag bitmaps,
//! authorities and total supply, with the conservation and authority rules
//! that govern minting, burning and reconfiguration.

use vstd::prelude::*;

use crate::assoc::{AssocMap, AssocSet, DupValue};
use crate::decimal::Decimal;
use crate::resource_flags::{
    resource_flags_are_valid, resource_permissions_are_valid, ALL_FLAGS, ALL_PERMISSIONS,
    BURNABLE, FREELY_BURNABLE, INDIVIDUAL_METADATA_MUTABLE, MAY_BURN,
    MAY_CHANGE_INDIVIDUAL_METADATA, MAY_CHANGE_SHARED_METADATA, MAY_MANAGE_RESOURCE_FLAGS,
    MAY_MINT, MAY_TRANSFER, MINTABLE, RESTRICTED_TRANSFER, SHARED_METADATA_MUTABLE,
};
use crate::types::{Address, AddressV, NonFungibleKey};

verus! {

/// Whether a resource class is divisible, and how finely.
#[derive(Debug, Clone, Copy, PartialEq, Eq, Structural)]
pub enum ResourceType {
    Fungible { divisibility: u8 },
    NonFungible,
}

impl ResourceType {
    pub open spec fn spec_divisibility(&self) -> u8 {
        match *self {
            ResourceType::Fungible { divisibility } => divisibility,
            ResourceType::NonFungible => 0,
        }
    }

    pub open spec fn wf(&self) -> bool {
        self.spec_divisibility() <= 18
    }

    pub fn divisibility(&self) -> (r: u8)
        ensures
            r == self.spec_divisibility(),
    {
        match *self {
            ResourceType::Fungible { divisibility } => divisibility,
            ResourceType::NonFungible => 0,
        }
    }

    pub fn is_fungible(&self) -> (r: bool)
        ensures
            r == (*self matches ResourceType::Fungible { .. }),
    {
        matches!(self, ResourceType::Fungible { .. })
    }
}

/// The immutable and mutable data of one non-fungible unit.
pub struct NonFungibleEntry {
    pub immutable_data: Vec<u8>,
    pub mutable_data: Vec<u8>,
}

impl View for NonFungibleEntry {
    type V = (Seq<u8>, Seq<u8>);

    open spec fn view(&self) -> (Seq<u8>, Seq<u8>) {
        (self.immutable_data@, self.mutable_data@)
    }
}

impl DupValue for NonFungibleEntry {
    fn dup(&self) -> (r: Self)
        ensures
            r@ == self@,
    {
        NonFungibleEntry {
            immutable_data: crate::bytes::clone_bytes(&self.immutable_data),
            mutable_data: crate::bytes::clone_bytes(&self.mutable_data),
        }
    }
}

/// The supply a new resource is created with.
pub enum NewSupply {
    Fungible { amount: Decimal },
    NonFungible { entries: AssocMap<NonFungibleKey, NonFungibleEntry> },
}

/// A quantity of an existing resource: an amount, or a set of keys.
pub enum Supply {
    Fungible { amount: Decimal },
    NonFungible { keys: AssocSet<NonFungibleKey> },
}

/// The abstract value of a quantity: an amount, or a set of key values.
pub enum SupplyV {
    Fungible(int),
    NonFungible(Set<Seq<u8>>),
}

impl SupplyV {
    /// The size of the quantity: the amount itself, or the number of keys.
    pub open spec fn amount(self) -> int {
        match self {
            SupplyV::Fungible(a) => a,
            SupplyV::NonFungible(keys) => keys.len() as int,
        }
    }
}

impl View for Supply {
    type V = SupplyV;

    open spec fn view(&self) -> SupplyV {
        match self {
            Supply::Fungible { amount } => SupplyV::Fungible(amount@),
            Supply::NonFungible { keys } => SupplyV::NonFungible(keys@),
        }
    }
}

impl Supply {
    pub open spec fn wf(&self) -> bool {
        match self {
            Supply::NonFungible { keys } => keys.wf(),
            Supply::Fungible { .. } => true,
        }
    }
}

/// An error from a resource definition operation.
#[derive(Debug, Clone, PartialEq, Eq, Structural)]
pub enum ResourceDefError {
    TypeAndSupplyNotMatching,
    OperationNotAllowed,
    PermissionNotAllowed,
    InvalidDivisibility,
    InvalidAmount(Decimal),
    InvalidResourceFlags(u64),
    InvalidResourcePermission(u64),
    InvalidFlagUpdate { flags: u64, mutable_flags: u64, new_flags: u64, new_mutable_flags: u64 },
}

/// Whether a flag bitmap holds only recognized bits.
pub open spec fn flags_valid(f: u64) -> bool {
    f & !ALL_FLAGS == 0
}

/// Whether a permission bitmap holds only recognized bits.
pub open spec fn perms_valid(p: u64) -> bool {
    p & !ALL_PERMISSIONS == 0
}

pub open spec fn spec_pow10(k: nat) -> int
    decreases k,
{
    if k == 0 {
        1
    } else {
        10 * spec_pow10((k - 1) as nat)
    }
}

pub proof fn lemma_pow10_monotone(a: nat, b: nat)
    requires
        a <= b,
    ensures
        1 <= spec_pow10(a) <= spec_pow10(b),
    decreases b,
{
    if b > 0 {
        if a == b {
            lemma_pow10_monotone((a - 1) as nat, (b - 1) as nat);
        } else {
            lemma_pow10_monotone(a, (b - 1) as nat);
        }
    }
}

pub proof fn lemma_pow10_18()
    ensures
        spec_pow10(18) == 1000000000000000000,
{
    reveal_with_fuel(spec_pow10, 19);
}

/// 10 to the `k`, as a raw unit count.
pub fn pow10(k: u8) -> (r: i128)
    requires
        k <= 18,
    ensures
        r == spec_pow10(k as nat),
        r > 0,
{
    proof {
        lemma_pow10_18();
    }
    let mut r: i128 = 1;
    let mut i: u8 = 0;
    while i < k
        invariant
            i <= k <= 18,
            r == spec_pow10(i as nat),
            spec_pow10(18) == 1000000000000000000,
        decreases k - i,
    {
        proof {
            lemma_pow10_monotone((i + 1) as nat, 18);
        }
        r = r * 10;
        i = i + 1;
    }
    proof {
        lemma_pow10_monotone(0, k as nat);
    }
    r
}

/// Whether an amount is a whole multiple of the smallest unit the type allows.
pub open spec fn granular(t: ResourceType, a: int) -> bool {
    a % spec_pow10((18 - t.spec_divisibility()) as nat) == 0
}

/// A valid fungible amount: non-negative and on the divisibility grid.
pub open spec fn amount_ok(t: ResourceType, a: int) -> bool {
    a >= 0 && granular(t, a)
}

/// Whether a badge grants a permission under an authority table.
pub open spec fn permission_granted(
    auths: Map<AddressV, u64>,
    badge: &Option<Address>,
    perm: u64,
) -> bool {
    match badge {
        Some(b) => auths.contains_key(b@) && auths[b@] & perm == perm,
        None => false,
    }
}

/// Whether some authority entry carries an unrecognized permission bit.
pub open spec fn has_invalid_permission(s: Seq<(Address, u64)>) -> bool {
    exists|i: int| 0 <= i < s.len() && !perms_valid(s[i].1)
}

/// Rejects a negative amount, and one off the grid a resource type allows.
pub fn check_amount_for(resource_type: ResourceType, amount: Decimal) -> (r: Result<
    (),
    ResourceDefError,
>)
    requires
        resource_type.wf(),
    ensures
        r == (if amount_ok(resource_type, amount@) {
            Ok::<(), ResourceDefError>(())
        } else {
            Err::<(), ResourceDefError>(ResourceDefError::InvalidAmount(amount))
        }),
{
    let divisibility = resource_type.divisibility();
    if amount.is_negative() {
        return Err(ResourceDefError::InvalidAmount(amount));
    }
    let unit = pow10(18 - divisibility);
    if amount.0 % unit != 0 {
        Err(ResourceDefError::InvalidAmount(amount))
    } else {
        Ok(())
    }
}

/// The abstract value of a resource definition.
pub struct ResourceDefV {
    pub resource_type: ResourceType,
    pub metadata: Seq<(String, String)>,
    pub flags: u64,
    pub mutable_flags: u64,
    pub authorities: Map<AddressV, u64>,
    pub total_supply: int,
}

/// The definition of a resource class.
pub struct ResourceDef {
    resource_type: ResourceType,
    metadata: Vec<(String, String)>,
    flags: u64,
    mutable_flags: u64,
    authorities: AssocMap<Address, u64>,
    total_supply: Decimal,
}

impl View for ResourceDef {
    type V = ResourceDefV;

    closed spec fn view(&self) -> ResourceDefV {
        ResourceDefV {
            resource_type: self.resource_type,
            metadata: self.metadata@,
            flags: self.flags,
            mutable_flags: self.mutable_flags,
            authorities: self.authorities@,
            total_supply: self.total_supply@,
        }
    }
}

impl ResourceDef {
    pub closed spec fn wf(&self) -> bool {
        &&& self.authorities.wf()
        &&& self.resource_type.wf()
        &&& flags_valid(self.flags)
        &&& flags_valid(self.mutable_flags)
    }

    /// What well-formedness says of the abstract value.
    pub proof fn lemma_wf(&self)
        requires
            self.wf(),
        ensures
            self@.resource_type.wf(),
            flags_valid(self@.flags),
            flags_valid(self@.mutable_flags),
    {
    }

    /// Builds a definition after checking flags, permissions, divisibility
    /// and that the initial supply fits the resource type.
    pub fn new(
        resource_type: ResourceType,
        metadata: Vec<(String, String)>,
        flags: u64,
        mutable_flags: u64,
        authorities: AssocMap<Address, u64>,
        initial_supply: &Option<NewSupply>,
    ) -> (r: Result<ResourceDef, ResourceDefError>)
        requires
            authorities.wf(),
        ensures
            ({
                let auts = authorities.entry_seq();
                if !flags_valid(flags) {
                    r == Err::<ResourceDef, _>(ResourceDefError::InvalidResourceFlags(flags))
                } else if !flags_valid(mutable_flags) {
                    r == Err::<ResourceDef, _>(
                        ResourceDefError::InvalidResourceFlags(mutable_flags),
                    )
                } else if has_invalid_permission(auts) {
                    r matches Err(ResourceDefError::InvalidResourcePermission(p))
                        && !perms_valid(p) && (exists|i: int|
                        0 <= i < auts.len() && auts[i].1 == p)
                } else if !resource_type.wf() {
                    r == Err::<ResourceDef, _>(ResourceDefError::InvalidDivisibility)
                } else {
                    match (resource_type, initial_supply) {
                        (
                            ResourceType::Fungible { divisibility },
                            Some(NewSupply::Fungible { amount }),
                        ) => {
                            if !amount_ok(resource_type, amount@) {
                                r == Err::<ResourceDef, _>(
                                    ResourceDefError::InvalidAmount(*amount),
                                )
                            } else {
                                r matches Ok(d) && d.wf() && d@ == (ResourceDefV {
                                    resource_type,
                                    metadata: metadata@,
                                    flags,
                                    mutable_flags,
                                    authorities: authorities@,
                                    total_supply: amount@,
                                })
                            }
                        },
                        (ResourceType::NonFungible, Some(NewSupply::NonFungible { entries })) => {
                            r matches Ok(d) && d.wf() && d@ == (ResourceDefV {
                                resource_type,
                                metadata: metadata@,
                                flags,
                                mutable_flags,
                                authorities: authorities@,
                                total_supply: entries.entry_seq().len() as int,
                            })
                        },
                        (_, None) => {
                            r matches Ok(d) && d.wf() && d@ == (ResourceDefV {
                                resource_type,
                                metadata: metadata@,
                                flags,
                                mutable_flags,
                                authorities: authorities@,
                                total_supply: 0,
                            })
                        },
                        _ => {
                            r == Err::<ResourceDef, _>(
                                ResourceDefError::TypeAndSupplyNotMatching,
                            )
                        },
                    }
                }
            }),
    {
        if !resource_flags_are_valid(flags) {
            return Err(ResourceDefError::InvalidResourceFlags(flags));
        }
        if !resource_flags_are_valid(mutable_flags) {
            return Err(ResourceDefError::InvalidResourceFlags(mutable_flags));
        }
        let n = authorities.len();
        let mut i: usize = 0;
        while i < n
            invariant
                authorities.wf(),
                flags_valid(flags),
                flags_valid(mutable_flags),
                n == authorities.entry_seq().len(),
                i <= n,
                forall|j: int| 0 <= j < i ==> perms_valid(authorities.entry_seq()[j].1),
            decreases n - i,
        {
            let (_, permission) = authorities.entry_at(i);
            if !resource_permissions_are_valid(*permission) {
                proof {
                    assert(authorities.entry_seq()[i as int].1 == *permission);
                }
                return Err(ResourceDefError::InvalidResourcePermission(*permission));
            }
            i = i + 1;
        }
        let divisibility = resource_type.divisibility();
        if resource_type.is_fungible() && divisibility > 18 {
            return Err(ResourceDefError::InvalidDivisibility);
        }
        let mut def = ResourceDef {
            resource_type,
            metadata,
            flags,
            mutable_flags,
            authorities,
            total_supply: Decimal::zero(),
        };
        match (&resource_type, initial_supply) {
            (ResourceType::Fungible { .. }, Some(NewSupply::Fungible { amount })) => {
                match def.check_amount(*amount) {
                    Ok(_) => {
                        def.total_supply = *amount;
                        Ok(def)
                    },
                    Err(e) => Err(e),
                }
            },
            (ResourceType::NonFungible, Some(NewSupply::NonFungible { entries })) => {
                def.total_supply = Decimal::from_usize(entries.len());
                Ok(def)
            },
            (_, None) => Ok(def),
            _ => Err(ResourceDefError::TypeAndSupplyNotMatching),
        }
    }

    pub fn resource_type(&self) -> (r: ResourceType)
        ensures
            r == self@.resource_type,
    {
        self.resource_type
    }

    pub fn metadata(&self) -> (r: &Vec<(String, String)>)
        ensures
            r@ == self@.metadata,
    {
        &self.metadata
    }

    pub fn flags(&self) -> (r: u64)
        ensures
            r == self@.flags,
    {
        self.flags
    }

    pub fn mutable_flags(&self) -> (r: u64)
        ensures
            r == self@.mutable_flags,
    {
        self.mutable_flags
    }

    pub fn authorities(&self) -> (r: &AssocMap<Address, u64>)
        ensures
            r@ == self@.authorities,
    {
        &self.authorities
    }

    pub fn total_supply(&self) -> (r: Decimal)
        ensures
            r@ == self@.total_supply,
    {
        self.total_supply
    }

    pub fn is_flag_on(&self, flag: u64) -> (r: bool)
        ensures
            r == (self@.flags & flag == flag),
    {
        self.flags & flag == flag
    }

    /// Adds supply of the resource, under the mint authority rule.
    pub fn mint(&mut self, supply: &Supply, badge: Option<Address>) -> (r: Result<
        (),
        ResourceDefError,
    >)
        requires
            old(self).wf(),
        ensures
            final(self).wf(),
            ({
                let v = old(self)@;
                if !(v.flags & MINTABLE == MINTABLE) {
                    r == Err::<(), _>(ResourceDefError::OperationNotAllowed) && *final(self) == *old(self)
                } else if !permission_granted(v.authorities, &badge, MAY_MINT) {
                    r == Err::<(), _>(ResourceDefError::PermissionNotAllowed) && *final(self) == *old(self)
                } else {
                    match (v.resource_type, supply) {
                        (ResourceType::Fungible { .. }, Supply::Fungible { amount }) => {
                            if !amount_ok(v.resource_type, amount@) {
                                r == Err::<(), _>(ResourceDefError::InvalidAmount(*amount))
                                    && *final(self) == *old(self)
                            } else if v.total_supply + amount@ > i128::MAX {
                                r == Err::<(), _>(ResourceDefError::InvalidAmount(*amount))
                                    && *final(self) == *old(self)
                            } else {
                                r == Ok::<(), ResourceDefError>(()) && final(self)@ == (
                                ResourceDefV { total_supply: v.total_supply + amount@, ..v })
                            }
                        },
                        (ResourceType::NonFungible, Supply::NonFungible { keys }) => {
                            if v.total_supply + keys.seq().len() > i128::MAX {
                                r == Err::<(), _>(
                                    ResourceDefError::InvalidAmount(
                                        Decimal(keys.seq().len() as i128),
                                    ),
                                ) && *final(self) == *old(self)
                            } else {
                                r == Ok::<(), ResourceDefError>(()) && final(self)@ == (
                                ResourceDefV {
                                    total_supply: v.total_supply + keys.seq().len(),
                                    ..v
                                })
                            }
                        },
                        _ => {
                            r == Err::<(), _>(ResourceDefError::TypeAndSupplyNotMatching)
                                && *final(self) == *old(self)
                        },
                    }
                }
            }),
    {
        match self.check_mint_auth(badge) {
            Ok(_) => {},
            Err(e) => {
                return Err(e);
            },
        }
        match (&self.resource_type, supply) {
            (ResourceType::Fungible { .. }, Supply::Fungible { amount }) => {
                match self.check_amount(*amount) {
                    Ok(_) => {},
                    Err(e) => {
                        return Err(e);
                    },
                }
                match self.total_supply.checked_add(amount) {
                    Some(t) => {
                        self.total_supply = t;
                        Ok(())
                    },
                    None => Err(ResourceDefError::InvalidAmount(*amount)),
                }
            },
            (ResourceType::NonFungible, Supply::NonFungible { keys }) => {
                let n = Decimal::from_usize(keys.len());
                match self.total_supply.checked_add(&n) {
                    Some(t) => {
                        self.total_supply = t;
                        Ok(())
                    },
                    None => Err(ResourceDefError::InvalidAmount(n)),
                }
            },
            _ => Err(ResourceDefError::TypeAndSupplyNotMatching),
        }
    }

    /// Removes supply of the resource, under the burn authority rule.
    pub fn burn(&mut self, supply: Supply, badge: Option<Address>) -> (r: Result<
        (),
        ResourceDefError,
    >)
        requires
            old(self).wf(),
        ensures
            final(self).wf(),
            ({
                let v = old(self)@;
                if !(v.flags & BURNABLE == BURNABLE) {
                    r == Err::<(), _>(ResourceDefError::OperationNotAllowed) && *final(self) == *old(self)
                } else if !(v.flags & FREELY_BURNABLE == FREELY_BURNABLE) && !permission_granted(
                    v.authorities,
                    &badge,
                    MAY_BURN,
                ) {
                    r == Err::<(), _>(ResourceDefError::PermissionNotAllowed) && *final(self) == *old(self)
                } else {
                    match (v.resource_type, &supply) {
                        (ResourceType::Fungible { .. }, Supply::Fungible { amount }) => {
                            if !amount_ok(v.resource_type, amount@) {
                                r == Err::<(), _>(ResourceDefError::InvalidAmount(*amount))
                                    && *final(self) == *old(self)
                            } else if v.total_supply - amount@ < i128::MIN {
                                r == Err::<(), _>(ResourceDefError::InvalidAmount(*amount))
                                    && *final(self) == *old(self)
                            } else {
                                r == Ok::<(), ResourceDefError>(()) && final(self)@ == (
                                ResourceDefV { total_supply: v.total_supply - amount@, ..v })
                            }
                        },
                        (ResourceType::NonFungible, Supply::NonFungible { keys }) => {
                            if v.total_supply - keys.seq().len() < i128::MIN {
                                r == Err::<(), _>(
                                    ResourceDefError::InvalidAmount(
                                        Decimal(keys.seq().len() as i128),
                                    ),
                                ) && *final(self) == *old(self)
                            } else {
                                r == Ok::<(), ResourceDefError>(()) && final(self)@ == (
                                ResourceDefV {
                                    total_supply: v.total_supply - keys.seq().len(),
                                    ..v
                                })
                            }
                        },
                        _ => {
                            r == Err::<(), _>(ResourceDefError::TypeAndSupplyNotMatching)
                                && *final(self) == *old(self)
                        },
                    }
                }
            }),
    {
        match self.check_burn_auth(badge) {
            Ok(_) => {},
            Err(e) => {
                return Err(e);
            },
        }
        match (&self.resource_type, &supply) {
            (ResourceType::Fungible { .. }, Supply::Fungible { amount }) => {
                match self.check_amount(*amount) {
                    Ok(_) => {},
                    Err(e) => {
                        return Err(e);
                    },
                }
                match self.total_supply.checked_sub(amount) {
                    Some(t) => {
                        self.total_supply = t;
                        Ok(())
                    },
                    None => Err(ResourceDefError::InvalidAmount(*amount)),
                }
            },
            (ResourceType::NonFungible, Supply::NonFungible { keys }) => {
                let n = Decimal::from_usize(keys.len());
                match self.total_supply.checked_sub(&n) {
                    Some(t) => {
                        self.total_supply = t;
                        Ok(())
                    },
                    None => Err(ResourceDefError::InvalidAmount(n)),
                }
            },
            _ => Err(ResourceDefError::TypeAndSupplyNotMatching),
        }
    }

    /// Replaces the flag bitmap; every changed bit must be mutable.
    pub fn update_flags(&mut self, new_flags: u64, badge: Option<Address>) -> (r: Result<
        (),
        ResourceDefError,
    >)
        requires
            old(self).wf(),
        ensures
            final(self).wf(),
            ({
                let v = old(self)@;
                let changed = v.flags ^ new_flags;
                if !permission_granted(v.authorities, &badge, MAY_MANAGE_RESOURCE_FLAGS) {
                    r == Err::<(), _>(ResourceDefError::PermissionNotAllowed) && *final(self) == *old(self)
                } else if !flags_valid(changed) {
                    r == Err::<(), _>(ResourceDefError::InvalidResourceFlags(changed)) && *final(self) == *old(self)
                } else if v.mutable_flags | changed != v.mutable_flags {
                    r == Err::<(), _>((ResourceDefError::InvalidFlagUpdate {
                        flags: v.flags,
                        mutable_flags: v.mutable_flags,
                        new_flags,
                        new_mutable_flags: v.mutable_flags,
                    })) && *final(self) == *old(self)
                } else {
                    r == Ok::<(), ResourceDefError>(()) && final(self)@ == (ResourceDefV {
                        flags: new_flags,
                        ..v
                    })
                }
            }),
    {
        match self.check_manage_flags_auth(badge) {
            Ok(_) => {},
            Err(e) => {
                return Err(e);
            },
        }
        let changed = self.flags ^ new_flags;
        if !resource_flags_are_valid(changed) {
            return Err(ResourceDefError::InvalidResourceFlags(changed));
        }
        if self.mutable_flags | changed != self.mutable_flags {
            return Err(
                ResourceDefError::InvalidFlagUpdate {
                    flags: self.flags,
                    mutable_flags: self.mutable_flags,
                    new_flags,
                    new_mutable_flags: self.mutable_flags,
                },
            );
        }
        proof {
            let f = old(self)@.flags;
            assert((f ^ new_flags) & !0x3fu64 == 0 && f & !0x3fu64 == 0 ==> new_flags & !0x3fu64
                == 0) by (bit_vector);
        }
        self.flags = new_flags;
        Ok(())
    }

    /// Replaces the mutable-flag bitmap; it may only shrink within itself.
    pub fn update_mutable_flags(&mut self, new_mutable_flags: u64, badge: Option<Address>) -> (r:
        Result<(), ResourceDefError>)
        requires
            old(self).wf(),
        ensures
            final(self).wf(),
            ({
                let v = old(self)@;
                let changed = v.mutable_flags ^ new_mutable_flags;
                if !permission_granted(v.authorities, &badge, MAY_MANAGE_RESOURCE_FLAGS) {
                    r == Err::<(), _>(ResourceDefError::PermissionNotAllowed) && *final(self) == *old(self)
                } else if !flags_valid(changed) {
                    r == Err::<(), _>(ResourceDefError::InvalidResourceFlags(changed)) && *final(self) == *old(self)
                } else if v.mutable_flags | changed != v.mutable_flags {
                    r == Err::<(), _>((ResourceDefError::InvalidFlagUpdate {
                        flags: v.flags,
                        mutable_flags: v.mutable_flags,
                        new_flags: v.flags,
                        new_mutable_flags,
                    })) && *final(self) == *old(self)
                } else {
                    r == Ok::<(), ResourceDefError>(()) && final(self)@ == (ResourceDefV {
                        mutable_flags: new_mutable_flags,
                        ..v
                    })
                }
            }),
    {
        match self.check_manage_flags_auth(badge) {
            Ok(_) => {},
            Err(e) => {
                return Err(e);
            },
        }
        let changed = self.mutable_flags ^ new_mutable_flags;
        if !resource_flags_are_valid(changed) {
            return Err(ResourceDefError::InvalidResourceFlags(changed));
        }
        if self.mutable_flags | changed != self.mutable_flags {
            return Err(
                ResourceDefError::InvalidFlagUpdate {
                    flags: self.flags,
                    mutable_flags: self.mutable_flags,
                    new_flags: self.flags,
                    new_mutable_flags,
                },
            );
        }
        proof {
            let m = old(self)@.mutable_flags;
            assert((m ^ new_mutable_flags) & !0x3fu64 == 0 && m & !0x3fu64 == 0 ==>
                new_mutable_flags & !0x3fu64 == 0) by (bit_vector);
        }
        self.mutable_flags = new_mutable_flags;
        Ok(())
    }

    /// Turns feature flags on: replaces the flag bitmap with its union with
    /// `flags`, under the flag-management rule.
    pub fn enable_flags(&mut self, flags: u64, badge: Option<Address>) -> (r: Result<
        (),
        ResourceDefError,
    >)
        requires
            old(self).wf(),
        ensures
            final(self).wf(),
            ({
                let v = old(self)@;
                let new_flags = v.flags | flags;
                let changed = v.flags ^ new_flags;
                if !permission_granted(v.authorities, &badge, MAY_MANAGE_RESOURCE_FLAGS) {
                    r == Err::<(), _>(ResourceDefError::PermissionNotAllowed) && *final(self)
                        == *old(self)
                } else if !flags_valid(changed) {
                    r == Err::<(), _>(ResourceDefError::InvalidResourceFlags(changed))
                        && *final(self) == *old(self)
                } else if v.mutable_flags | changed != v.mutable_flags {
                    (r matches Err(ResourceDefError::InvalidFlagUpdate { .. })) && *final(self)
                        == *old(self)
                } else {
                    r == Ok::<(), ResourceDefError>(()) && final(self)@ == (ResourceDefV {
                        flags: new_flags,
                        ..v
                    })
                }
            }),
    {
        let new_flags = self.flags | flags;
        self.update_flags(new_flags, badge)
    }

    /// Turns feature flags off: replaces the flag bitmap with its difference
    /// with `flags`, under the flag-management rule.
    pub fn disable_flags(&mut self, flags: u64, badge: Option<Address>) -> (r: Result<
        (),
        ResourceDefError,
    >)
        requires
            old(self).wf(),
        ensures
            final(self).wf(),
            ({
                let v = old(self)@;
                let new_flags = v.flags & !flags;
                let changed = v.flags ^ new_flags;
                if !permission_granted(v.authorities, &badge, MAY_MANAGE_RESOURCE_FLAGS) {
                    r == Err::<(), _>(ResourceDefError::PermissionNotAllowed) && *final(self)
                        == *old(self)
                } else if !flags_valid(changed) {
                    r == Err::<(), _>(ResourceDefError::InvalidResourceFlags(changed))
                        && *final(self) == *old(self)
                } else if v.mutable_flags | changed != v.mutable_flags {
                    (r matches Err(ResourceDefError::InvalidFlagUpdate { .. })) && *final(self)
                        == *old(self)
                } else {
                    r == Ok::<(), ResourceDefError>(()) && final(self)@ == (ResourceDefV {
                        flags: new_flags,
                        ..v
                    })
                }
            }),
    {
        let new_flags = self.flags & !flags;
        self.update_flags(new_flags, badge)
    }

    /// Locks feature flags: removes them from the mutable bitmap, under the
    /// flag-management rule.
    pub fn lock_flags(&mut self, flags: u64, badge: Option<Address>) -> (r: Result<
        (),
        ResourceDefError,
    >)
        requires
            old(self).wf(),
        ensures
            final(self).wf(),
            ({
                let v = old(self)@;
                let new_mutable_flags = v.mutable_flags & !flags;
                let changed = v.mutable_flags ^ new_mutable_flags;
                if !permission_granted(v.authorities, &badge, MAY_MANAGE_RESOURCE_FLAGS) {
                    r == Err::<(), _>(ResourceDefError::PermissionNotAllowed) && *final(self)
                        == *old(self)
                } else if !flags_valid(changed) {
                    r == Err::<(), _>(ResourceDefError::InvalidResourceFlags(changed))
                        && *final(self) == *old(self)
                } else if v.mutable_flags | changed != v.mutable_flags {
                    (r matches Err(ResourceDefError::InvalidFlagUpdate { .. })) && *final(self)
                        == *old(self)
                } else {
                    r == Ok::<(), ResourceDefError>(()) && final(self)@ == (ResourceDefV {
                        mutable_flags: new_mutable_flags,
                        ..v
                    })
                }
            }),
    {
        let new_mutable_flags = self.mutable_flags & !flags;
        self.update_mutable_flags(new_mutable_flags, badge)
    }

    /// Replaces the shared metadata, under the metadata authority rule.
    pub fn update_metadata(
        &mut self,
        new_metadata: Vec<(String, String)>,
        badge: Option<Address>,
    ) -> (r: Result<(), ResourceDefError>)
        requires
            old(self).wf(),
        ensures
            final(self).wf(),
            ({
                let v = old(self)@;
                if !(v.flags & SHARED_METADATA_MUTABLE == SHARED_METADATA_MUTABLE) {
                    r == Err::<(), _>(ResourceDefError::OperationNotAllowed) && *final(self) == *old(self)
                } else if !permission_granted(
                    v.authorities,
                    &badge,
                    MAY_CHANGE_SHARED_METADATA,
                ) {
                    r == Err::<(), _>(ResourceDefError::PermissionNotAllowed) && *final(self) == *old(self)
                } else {
                    r == Ok::<(), ResourceDefError>(()) && final(self)@ == (ResourceDefV {
                        metadata: new_metadata@,
                        ..v
                    })
                }
            }),
    {
        match self.check_update_metadata_auth(badge) {
            Ok(_) => {},
            Err(e) => {
                return Err(e);
            },
        }
        self.metadata = new_metadata;
        Ok(())
    }

    /// Whether a badge may take from a vault of this resource.
    pub fn check_take_from_vault_auth(&self, badge: Option<Address>) -> (r: Result<
        (),
        ResourceDefError,
    >)
        requires
            self.wf(),
        ensures
            r == (if self@.flags & RESTRICTED_TRANSFER != RESTRICTED_TRANSFER
                || permission_granted(self@.authorities, &badge, MAY_TRANSFER) {
                Ok::<(), ResourceDefError>(())
            } else {
                Err::<(), ResourceDefError>(ResourceDefError::PermissionNotAllowed)
            }),
    {
        if !self.is_flag_on(RESTRICTED_TRANSFER) {
            Ok(())
        } else {
            self.check_permission(badge, MAY_TRANSFER)
        }
    }

    /// Whether a badge may mint this resource.
    pub fn check_mint_auth(&self, badge: Option<Address>) -> (r: Result<(), ResourceDefError>)
        requires
            self.wf(),
        ensures
            r == (if self@.flags & MINTABLE != MINTABLE {
                Err::<(), ResourceDefError>(ResourceDefError::OperationNotAllowed)
            } else if !permission_granted(self@.authorities, &badge, MAY_MINT) {
                Err::<(), ResourceDefError>(ResourceDefError::PermissionNotAllowed)
            } else {
                Ok::<(), ResourceDefError>(())
            }),
    {
        if self.is_flag_on(MINTABLE) {
            self.check_permission(badge, MAY_MINT)
        } else {
            Err(ResourceDefError::OperationNotAllowed)
        }
    }

    /// Whether a badge may burn this resource.
    pub fn check_burn_auth(&self, badge: Option<Address>) -> (r: Result<(), ResourceDefError>)
        requires
            self.wf(),
        ensures
            r == (if self@.flags & BURNABLE != BURNABLE {
                Err::<(), ResourceDefError>(ResourceDefError::OperationNotAllowed)
            } else if self@.flags & FREELY_BURNABLE == FREELY_BURNABLE {
                Ok::<(), ResourceDefError>(())
            } else if !permission_granted(self@.authorities, &badge, MAY_BURN) {
                Err::<(), ResourceDefError>(ResourceDefError::PermissionNotAllowed)
            } else {
                Ok::<(), ResourceDefError>(())
            }),
    {
        if self.is_flag_on(BURNABLE) {
            if self.is_flag_on(FREELY_BURNABLE) {
                Ok(())
            } else {
                self.check_permission(badge, MAY_BURN)
            }
        } else {
            Err(ResourceDefError::OperationNotAllowed)
        }
    }

    /// Whether a badge may change a non-fungible unit's mutable data.
    pub fn check_update_non_fungible_mutable_data_auth(&self, badge: Option<Address>) -> (r:
        Result<(), ResourceDefError>)
        requires
            self.wf(),
        ensures
            r == (if self@.flags & INDIVIDUAL_METADATA_MUTABLE != INDIVIDUAL_METADATA_MUTABLE {
                Err::<(), ResourceDefError>(ResourceDefError::OperationNotAllowed)
            } else if !permission_granted(
                self@.authorities,
                &badge,
                MAY_CHANGE_INDIVIDUAL_METADATA,
            ) {
                Err::<(), ResourceDefError>(ResourceDefError::PermissionNotAllowed)
            } else {
                Ok::<(), ResourceDefError>(())
            }),
    {
        if self.is_flag_on(INDIVIDUAL_METADATA_MUTABLE) {
            self.check_permission(badge, MAY_CHANGE_INDIVIDUAL_METADATA)
        } else {
            Err(ResourceDefError::OperationNotAllowed)
        }
    }

    /// Whether a badge may change the shared metadata.
    pub fn check_update_metadata_auth(&self, badge: Option<Address>) -> (r: Result<
        (),
        ResourceDefError,
    >)
        requires
            self.wf(),
        ensures
            r == (if self@.flags & SHARED_METADATA_MUTABLE != SHARED_METADATA_MUTABLE {
                Err::<(), ResourceDefError>(ResourceDefError::OperationNotAllowed)
            } else if !permission_granted(self@.authorities, &badge, MAY_CHANGE_SHARED_METADATA) {
                Err::<(), ResourceDefError>(ResourceDefError::PermissionNotAllowed)
            } else {
                Ok::<(), ResourceDefError>(())
            }),
    {
        if self.is_flag_on(SHARED_METADATA_MUTABLE) {
            self.check_permission(badge, MAY_CHANGE_SHARED_METADATA)
        } else {
            Err(ResourceDefError::OperationNotAllowed)
        }
    }

    /// Whether a badge may manage the flag bitmaps.
    pub fn check_manage_flags_auth(&self, badge: Option<Address>) -> (r: Result<
        (),
        ResourceDefError,
    >)
        requires
            self.wf(),
        ensures
            r == (if permission_granted(self@.authorities, &badge, MAY_MANAGE_RESOURCE_FLAGS) {
                Ok::<(), ResourceDefError>(())
            } else {
                Err::<(), ResourceDefError>(ResourceDefError::PermissionNotAllowed)
            }),
    {
        self.check_permission(badge, MAY_MANAGE_RESOURCE_FLAGS)
    }

    /// Rejects a negative amount, and one off the divisibility grid.
    pub fn check_amount(&self, amount: Decimal) -> (r: Result<(), ResourceDefError>)
        requires
            self.wf(),
        ensures
            r == (if amount_ok(self@.resource_type, amount@) {
                Ok::<(), ResourceDefError>(())
            } else {
                Err::<(), ResourceDefError>(ResourceDefError::InvalidAmount(amount))
            }),
    {
        check_amount_for(self.resource_type, amount)
    }

    /// Whether the badge is in the authority table with the permission set.
    pub fn check_permission(&self, badge: Option<Address>, permission: u64) -> (r: Result<
        (),
        ResourceDefError,
    >)
        requires
            self.wf(),
        ensures
            r == (if permission_granted(self@.authorities, &badge, permission) {
                Ok::<(), ResourceDefError>(())
            } else {
                Err::<(), ResourceDefError>(ResourceDefError::PermissionNotAllowed)
            }),
    {
        if let Some(badge) = &badge {
            if let Some(auth) = self.authorities.get(badge) {
                if *auth & permission == permission {
                    return Ok(());
                }
            }
        }
        Err(ResourceDefError::PermissionNotAllowed)
    }

    /// A copy with the same abstract value.
    pub fn dup(&self) -> (r: Self)
        ensures
            r@ == self@,
            r.wf() == self.wf(),
    {
        let mut metadata: Vec<(String, String)> = Vec::new();
        let mut i: usize = 0;
        while i < self.metadata.len()
            invariant
                i <= self.metadata@.len(),
                metadata@ == self.metadata@.subrange(0, i as int),
            decreases self.metadata@.len() - i,
        {
            let name = self.metadata[i].0.clone();
            let value = self.metadata[i].1.clone();
            metadata.push((name, value));
            proof {
                assert(metadata@ =~= self.metadata@.subrange(0, i + 1 as int));
            }
            i = i + 1;
        }
        proof {
            assert(metadata@ =~= self.metadata@);
        }
        ResourceDef {
            resource_type: self.resource_type,
            metadata,
            flags: self.flags,
            mutable_flags: self.mutable_flags,
            authorities: self.authorities.dup(),
            total_supply: self.total_supply,
        }
    }
}

/// Law: a flag update moves only mutable bits.  Whenever `update_flags`
/// succeeds, every bit that differs between the old and new flag bitmaps is
/// set in the mutable-flag bitmap.
pub proof fn lemma_update_flags_delta(pre: ResourceDefV, post: ResourceDefV, new_flags: u64)
    requires
        post.flags == new_flags,
        post.mutable_flags == pre.mutable_flags,
        pre.mutable_flags | (pre.flags ^ new_flags) == pre.mutable_flags,
    ensures
        (pre.flags ^ post.flags) & !pre.mutable_flags == 0,
{
    let f = pre.flags;
    let m = pre.mutable_flags;
    assert(m | (f ^ new_flags) == m ==> (f ^ new_flags) & !m == 0) by (bit_vector);
}

impl DupValue for ResourceDef {
    fn dup(&self) -> (r: Self)
        ensures
            r@ == self@,
    {
        ResourceDef::dup(self)
    }
}

} // verus!
