use radix_engine::assoc::AssocMap;
use radix_engine::decimal::Decimal;
use radix_engine::resource_def::{NewSupply, ResourceDef, ResourceDefError, ResourceType,
    Supply};
use radix_engine::resource_flags::{BURNABLE, FREELY_BURNABLE, MAY_BURN,
    MAY_MANAGE_RESOURCE_FLAGS, MAY_MINT, MINTABLE, RESTRICTED_TRANSFER};
use radix_engine::types::{radix_token, system_component, Address};

fn badge() -> Address {
    radix_token()
}

fn def_with(
    flags: u64,
    mutable_flags: u64,
    permissions: u64,
    supply: i128,
) -> ResourceDef {
    let mut authorities: AssocMap<Address, u64> = AssocMap::new();
    authorities.insert(badge(), permissions);
    ResourceDef::new(
        ResourceType::Fungible { divisibility: 18 },
        Vec::new(),
        flags,
        mutable_flags,
        authorities,
        &Some(NewSupply::Fungible { amount: Decimal(supply) }),
    )
    .unwrap()
}

#[test]
fn new_rejects_unknown_flags() {
    let authorities: AssocMap<Address, u64> = AssocMap::new();
    let r = ResourceDef::new(
        ResourceType::Fungible { divisibility: 18 },
        Vec::new(),
        1u64 << 60,
        0,
        authorities,
        &None,
    );
    assert!(matches!(r, Err(ResourceDefError::InvalidResourceFlags(_))));
}

#[test]
fn new_rejects_unknown_permission() {
    let mut authorities: AssocMap<Address, u64> = AssocMap::new();
    authorities.insert(badge(), 1u64 << 60);
    let r = ResourceDef::new(
        ResourceType::Fungible { divisibility: 18 },
        Vec::new(),
        0,
        0,
        authorities,
        &None,
    );
    assert!(matches!(r, Err(ResourceDefError::InvalidResourcePermission(_))));
}

#[test]
fn new_rejects_divisibility_over_eighteen() {
    let authorities: AssocMap<Address, u64> = AssocMap::new();
    let r = ResourceDef::new(
        ResourceType::Fungible { divisibility: 19 },
        Vec::new(),
        0,
        0,
        authorities,
        &None,
    );
    assert!(matches!(r, Err(ResourceDefError::InvalidDivisibility)));
}

#[test]
fn new_rejects_mismatching_supply() {
    let authorities: AssocMap<Address, u64> = AssocMap::new();
    let mut entries = AssocMap::new();
    entries.insert(
        radix_engine::types::NonFungibleKey::from_u128(1),
        radix_engine::resource_def::NonFungibleEntry {
            immutable_data: Vec::new(),
            mutable_data: Vec::new(),
        },
    );
    let r = ResourceDef::new(
        ResourceType::Fungible { divisibility: 18 },
        Vec::new(),
        0,
        0,
        authorities,
        &Some(NewSupply::NonFungible { entries }),
    );
    assert!(matches!(r, Err(ResourceDefError::TypeAndSupplyNotMatching)));
}

#[test]
fn mint_requires_badge_and_adds_supply() {
    let mut def = def_with(MINTABLE, 0, MAY_MINT, 1000);
    let supply = Supply::Fungible { amount: Decimal(50) };
    assert!(def.mint(&supply, None).is_err());
    assert!(def.mint(&supply, Some(system_component())).is_err());
    def.mint(&supply, Some(badge())).unwrap();
    assert!(def.total_supply().equals(&Decimal(1050)));
}

#[test]
fn mint_rejects_supply_overflow() {
    let mut def = def_with(MINTABLE, 0, MAY_MINT, 100);
    let supply = Supply::Fungible { amount: Decimal(i128::MAX) };
    let r = def.mint(&supply, Some(badge()));
    assert!(matches!(r, Err(ResourceDefError::InvalidAmount(_))));
    assert!(def.total_supply().equals(&Decimal(100)));
}

#[test]
fn burn_follows_the_burnable_flags() {
    let mut def = def_with(BURNABLE, 0, MAY_BURN, 1000);
    def.burn(Supply::Fungible { amount: Decimal(100) }, Some(badge())).unwrap();
    assert!(def.total_supply().equals(&Decimal(900)));
    assert!(def.burn(Supply::Fungible { amount: Decimal(100) }, None).is_err());

    let mut frozen = def_with(0, 0, MAY_BURN, 1000);
    let r = frozen.burn(Supply::Fungible { amount: Decimal(1) }, Some(badge()));
    assert!(matches!(r, Err(ResourceDefError::OperationNotAllowed)));

    let mut free = def_with(BURNABLE | FREELY_BURNABLE, 0, 0, 1000);
    free.burn(Supply::Fungible { amount: Decimal(10) }, None).unwrap();
    assert!(free.total_supply().equals(&Decimal(990)));
}

#[test]
fn flag_update_constraint() {
    let mut def = def_with(MINTABLE, MINTABLE | BURNABLE, MAY_MANAGE_RESOURCE_FLAGS, 0);
    let r = def.update_flags(MINTABLE | RESTRICTED_TRANSFER, Some(badge()));
    match r {
        Err(ResourceDefError::InvalidFlagUpdate { flags, mutable_flags, new_flags, .. }) => {
            assert_eq!(flags, MINTABLE);
            assert_eq!(mutable_flags, MINTABLE | BURNABLE);
            assert_eq!(new_flags, MINTABLE | RESTRICTED_TRANSFER);
        },
        _ => panic!("expected an invalid flag update"),
    }
    assert_eq!(def.flags(), MINTABLE);
    def.update_flags(MINTABLE | BURNABLE, Some(badge())).unwrap();
    assert_eq!(def.flags(), MINTABLE | BURNABLE);
}

#[test]
fn flag_helpers_turn_bits_on_off_and_lock() {
    let mut def = def_with(0, MINTABLE | BURNABLE, MAY_MANAGE_RESOURCE_FLAGS, 0);
    def.enable_flags(MINTABLE, Some(badge())).unwrap();
    assert_eq!(def.flags(), MINTABLE);
    def.disable_flags(MINTABLE, Some(badge())).unwrap();
    assert_eq!(def.flags(), 0);
    def.lock_flags(BURNABLE, Some(badge())).unwrap();
    assert_eq!(def.mutable_flags(), MINTABLE);
    let r = def.enable_flags(BURNABLE, Some(badge()));
    assert!(matches!(r, Err(ResourceDefError::InvalidFlagUpdate { .. })));
}

#[test]
fn check_amount_follows_divisibility() {
    let def0 = {
        let authorities: AssocMap<Address, u64> = AssocMap::new();
        ResourceDef::new(
            ResourceType::Fungible { divisibility: 0 },
            Vec::new(),
            0,
            0,
            authorities,
            &None,
        )
        .unwrap()
    };
    let unit: i128 = 1_000_000_000_000_000_000;
    assert!(def0.check_amount(Decimal(unit)).is_ok());
    assert!(def0.check_amount(Decimal(unit / 2)).is_err());

    let def18 = def_with(0, 0, 0, 0);
    assert!(def18.check_amount(Decimal(1)).is_ok());
    assert!(def18.check_amount(Decimal(0)).is_ok());
    assert!(def18.check_amount(Decimal(-1)).is_err());
}

#[test]
fn metadata_updates_follow_the_shared_flag() {
    let mut def = def_with(0, 0, 0, 0);
    let new_metadata = vec![(String::from("name"), String::from("token"))];
    let r = def.update_metadata(new_metadata, Some(badge()));
    assert!(matches!(r, Err(ResourceDefError::OperationNotAllowed)));
}
