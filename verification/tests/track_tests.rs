use radix_engine::assoc::AssocMap;
use radix_engine::container::{Bucket, Vault};
use radix_engine::decimal::Decimal;
use radix_engine::process::{BucketState, Process, ProcessError};
use radix_engine::resource_def::{ResourceDef, ResourceType, Supply};
use radix_engine::resource_flags::{INDIVIDUAL_METADATA_MUTABLE,
    MAY_CHANGE_INDIVIDUAL_METADATA, MAY_MINT, MINTABLE};
use radix_engine::substate::{Component, InMemorySubstateStore, NonFungible, Package,
    SubstateStore};
use radix_engine::track::{Track, TrackError};
use radix_engine::types::{ecdsa_token, radix_token, Address, Bid, EcdsaPublicKey,
    NonFungibleKey, Rid, H256};

fn hash(byte: u8) -> H256 {
    H256::new(vec![byte; 32])
}

fn xrd_def() -> ResourceDef {
    let authorities: AssocMap<Address, u64> = AssocMap::new();
    ResourceDef::new(
        ResourceType::Fungible { divisibility: 18 },
        vec![(String::from("symbol"), String::from("XRD"))],
        0,
        0,
        authorities,
        &Some(radix_engine::resource_def::NewSupply::Fungible { amount: Decimal(1000) }),
    )
    .unwrap()
}

#[test]
fn track_stages_writes_until_commit() {
    let store = InMemorySubstateStore::new();
    let mut track = Track::new(store, hash(1), Vec::new());

    assert!(track.get_resource_def(&radix_token()).is_none());
    track.put_resource_def(radix_token(), xrd_def());
    let cached = track.get_resource_def(&radix_token()).unwrap();
    assert!(cached.total_supply().equals(&Decimal(1000)));

    track.commit();
    let store = track.into_ledger();
    let persisted = store.get_resource_def(&radix_token()).unwrap();
    assert!(persisted.total_supply().equals(&Decimal(1000)));
}

#[test]
fn track_reads_through_to_the_store() {
    let mut store = InMemorySubstateStore::new();
    store.put_package(radix_token(), Package::new(vec![1, 2, 3]));
    store.put_component(
        ecdsa_token(),
        Component::new(radix_token(), String::from("Account"), vec![9]),
    );
    let mut track = Track::new(store, hash(1), Vec::new());
    assert_eq!(track.get_package(&radix_token()).unwrap().code(), &vec![1, 2, 3]);
    let component = track.get_component(&ecdsa_token()).unwrap();
    assert_eq!(component.state(), &vec![9]);
    assert_eq!(component.blueprint_name().as_str(), "Account");
}

#[test]
fn track_vault_writes_survive_commit() {
    let store = InMemorySubstateStore::new();
    let mut track = Track::new(store, hash(2), Vec::new());
    let vid = track.new_vid();
    let vault = Vault::with_bucket(Bucket::new(
        radix_token(),
        ResourceType::Fungible { divisibility: 18 },
        Supply::Fungible { amount: Decimal(77) },
    ));
    track.put_vault(ecdsa_token(), vid, vault);
    track.commit();
    let store = track.into_ledger();
    let mut track2 = Track::new(store, hash(3), Vec::new());
    let vid2 = radix_engine::types::Vid(hash(2), 1024);
    let loaded = track2.get_vault(&ecdsa_token(), &vid2).unwrap();
    assert!(loaded.amount().equals(&Decimal(77)));
}

#[test]
fn track_ids_are_deterministic_per_hash() {
    let mut t1 = Track::new(InMemorySubstateStore::new(), hash(5), Vec::new());
    let mut t2 = Track::new(InMemorySubstateStore::new(), hash(5), Vec::new());
    assert!(t1.new_package_address().equals(&t2.new_package_address()));
    assert!(t1.new_component_address().equals(&t2.new_component_address()));
    assert_eq!(t1.new_uuid(), t2.new_uuid());
    assert_eq!(t1.new_bid(), Bid(1027));
    assert_eq!(t1.new_entities().len(), 2);
}

#[test]
fn start_process_seeds_the_signature_bucket() {
    let signer = EcdsaPublicKey::new(vec![7u8; 33]);
    let track = Track::new(InMemorySubstateStore::new(), hash(1), vec![signer.clone()]);
    let process = track.start_process(false);
    let witnessed = process
        .proof_contains_non_fungible(
            Rid(1),
            &ecdsa_token(),
            &NonFungibleKey::new(signer.to_vec()),
        )
        .unwrap();
    assert!(witnessed);
    let missing = process
        .proof_contains_non_fungible(
            Rid(1),
            &ecdsa_token(),
            &NonFungibleKey::new(vec![8u8; 33]),
        )
        .unwrap();
    assert!(!missing);
}

#[test]
fn dangling_bucket_fails_the_frame_exit() {
    let mut process = Process::new(0, false);
    let bucket = Bucket::new(
        radix_token(),
        ResourceType::Fungible { divisibility: 18 },
        Supply::Fungible { amount: Decimal(1) },
    );
    process.insert_bucket(Bid(1024), bucket).unwrap();
    let r = process.check_resource();
    assert_eq!(r, Err(ProcessError::DanglingBuckets));
    let _ = process.take_bucket(Bid(1024), BucketState::Stored).unwrap();
    assert!(process.check_resource().is_ok());
    assert!(process.bid_created(Bid(1024)));
}

#[test]
fn dangling_vault_fails_the_frame_exit() {
    let mut process = Process::new(0, false);
    let supply = Bucket::new(
        radix_token(),
        ResourceType::Fungible { divisibility: 18 },
        Supply::Fungible { amount: Decimal(1) },
    );
    let vault = Vault::with_bucket(supply);
    let vid = radix_engine::types::Vid(hash(1), 1024);
    process.insert_vault(vid, vault).unwrap();
    assert_eq!(process.check_resource(), Err(ProcessError::DanglingVaults));
    let vid = radix_engine::types::Vid(hash(1), 1024);
    let claimed = process.claim_vault(&vid).unwrap();
    assert!(claimed.amount().equals(&Decimal(1)));
    assert!(process.check_resource().is_ok());
}

#[test]
fn worktop_assertions_see_the_staged_amounts() {
    let mut process = Process::new(0, false);
    let bucket = Bucket::new(
        radix_token(),
        ResourceType::Fungible { divisibility: 18 },
        Supply::Fungible { amount: Decimal(25) },
    );
    process.worktop_put(bucket).unwrap();
    assert!(process.assert_worktop_contains(&radix_token(), Decimal(25)).is_ok());
    assert!(process.assert_worktop_contains(&radix_token(), Decimal(26)).is_err());
    process.worktop_take(&radix_token(), Decimal(10), Bid(1024)).unwrap();
    assert!(process.assert_worktop_contains(&radix_token(), Decimal(15)).is_ok());
    let taken = process.take_bucket(Bid(1024), BucketState::Moved).unwrap();
    assert!(taken.amount().equals(&Decimal(10)));
}

#[test]
fn non_fungible_data_updates_follow_the_individual_flag() {
    let mut track = Track::new(InMemorySubstateStore::new(), hash(1), Vec::new());
    let resource = radix_token();
    let badge = ecdsa_token();
    let key = NonFungibleKey::from_u128(1);

    let mut authorities: AssocMap<Address, u64> = AssocMap::new();
    authorities.insert(badge.clone(), MAY_CHANGE_INDIVIDUAL_METADATA);
    let def = ResourceDef::new(
        ResourceType::NonFungible,
        Vec::new(),
        INDIVIDUAL_METADATA_MUTABLE,
        0,
        authorities,
        &None,
    )
    .unwrap();
    track.put_resource_def(resource.clone(), def);
    track.put_non_fungible(resource.clone(), key.clone(), NonFungible::new(vec![1], vec![2]));

    let denied = track.update_non_fungible_data(&resource, &key, vec![9], None);
    assert!(matches!(denied, Err(TrackError::ResourceError(_))));

    track.update_non_fungible_data(&resource, &key, vec![9], Some(badge)).unwrap();
    let updated = track.get_non_fungible(&resource, &key).unwrap();
    assert_eq!(updated.mutable_data(), &vec![9]);
    assert_eq!(updated.immutable_data(), &vec![1]);
}

#[test]
fn minting_a_non_fungible_refuses_an_existing_key() {
    let mut track = Track::new(InMemorySubstateStore::new(), hash(1), Vec::new());
    let resource = radix_token();
    let badge = ecdsa_token();
    let key = NonFungibleKey::from_u128(1);

    let mut authorities: AssocMap<Address, u64> = AssocMap::new();
    authorities.insert(badge.clone(), MAY_MINT);
    let def = ResourceDef::new(
        ResourceType::NonFungible,
        Vec::new(),
        MINTABLE,
        0,
        authorities,
        &None,
    )
    .unwrap();
    track.put_resource_def(resource.clone(), def);

    let denied = track.mint_non_fungible(&resource, &key, vec![1], vec![2], None);
    assert!(matches!(denied, Err(TrackError::ResourceError(_))));

    track
        .mint_non_fungible(&resource, &key, vec![1], vec![2], Some(badge.clone()))
        .unwrap();
    let unit = track.get_non_fungible(&resource, &key).unwrap();
    assert_eq!(unit.immutable_data(), &vec![1]);
    assert_eq!(unit.mutable_data(), &vec![2]);
    let def = track.get_resource_def(&resource).unwrap();
    assert!(def.total_supply().equals(&Decimal(1)));

    let again = track.mint_non_fungible(&resource, &key, vec![9], vec![9], Some(badge));
    assert_eq!(again, Err(TrackError::NonFungibleAlreadyExists));
    let def = track.get_resource_def(&resource).unwrap();
    assert!(def.total_supply().equals(&Decimal(1)));
}

#[test]
fn logs_accumulate_in_order() {
    let mut track = Track::new(InMemorySubstateStore::new(), hash(1), Vec::new());
    track.add_log(radix_engine::types::LogLevel::Info, String::from("one"));
    track.add_log(radix_engine::types::LogLevel::Warn, String::from("two"));
    assert_eq!(track.logs().len(), 2);
    assert_eq!(track.logs()[0].1, "one");
    assert_eq!(track.logs()[1].1, "two");
}
