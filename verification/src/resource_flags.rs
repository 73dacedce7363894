//! The flag and permission bitmaps of a resource definition.

use vstd::prelude::*;

verus! {

/// New supply may be minted.
pub const MINTABLE: u64 = 1u64 << 0;

/// Supply may be burned with the right badge.
pub const BURNABLE: u64 = 1u64 << 1;

/// Supply may be burned by anyone.
pub const FREELY_BURNABLE: u64 = 1u64 << 2;

/// Taking from a vault asks for a transfer badge.
pub const RESTRICTED_TRANSFER: u64 = 1u64 << 3;

/// The mutable data of a non-fungible unit may be changed.
pub const INDIVIDUAL_METADATA_MUTABLE: u64 = 1u64 << 4;

/// The shared metadata of the resource may be changed.
pub const SHARED_METADATA_MUTABLE: u64 = 1u64 << 5;

/// Every recognized resource flag.
pub const ALL_FLAGS: u64 = 0x3f;

/// May mint new supply.
pub const MAY_MINT: u64 = 1u64 << 0;

/// May burn supply.
pub const MAY_BURN: u64 = 1u64 << 1;

/// May take from a restricted-transfer vault.
pub const MAY_TRANSFER: u64 = 1u64 << 2;

/// May change the mutable data of a non-fungible unit.
pub const MAY_CHANGE_INDIVIDUAL_METADATA: u64 = 1u64 << 3;

/// May change the shared metadata.
pub const MAY_CHANGE_SHARED_METADATA: u64 = 1u64 << 4;

/// May change the resource flags.
pub const MAY_MANAGE_RESOURCE_FLAGS: u64 = 1u64 << 5;

/// Every recognized permission.
pub const ALL_PERMISSIONS: u64 = 0x3f;

/// Whether a flag bitmap holds only recognized bits.
pub fn resource_flags_are_valid(flags: u64) -> (r: bool)
    ensures
        r == (flags & !ALL_FLAGS == 0),
{
    flags & !ALL_FLAGS == 0
}

/// Whether a permission bitmap holds only recognized bits.
pub fn resource_permissions_are_valid(permissions: u64) -> (r: bool)
    ensures
        r == (permissions & !ALL_PERMISSIONS == 0),
{
    permissions & !ALL_PERMISSIONS == 0
}

} // verus!
