use radix_engine::account::Account;
use radix_engine::assoc::AssocSet;
use radix_engine::container::{Bucket, BucketError};
use radix_engine::decimal::Decimal;
use radix_engine::process::{BucketState, Process};
use radix_engine::resource_def::{ResourceType, Supply};
use radix_engine::types::{ecdsa_token, radix_token, Bid, EcdsaPublicKey, NonFungibleKey};

fn key(byte: u8) -> EcdsaPublicKey {
    EcdsaPublicKey::new(vec![byte; 33])
}

fn signature_proof(signer: &EcdsaPublicKey) -> Bucket {
    let mut keys: AssocSet<NonFungibleKey> = AssocSet::new();
    keys.insert(NonFungibleKey::new(signer.to_vec()));
    Bucket::new(
        ecdsa_token(),
        ResourceType::NonFungible,
        Supply::NonFungible { keys },
    )
}

fn xrd_bucket(amount: i128) -> Bucket {
    Bucket::new(
        radix_token(),
        ResourceType::Fungible { divisibility: 18 },
        Supply::Fungible { amount: Decimal(amount) },
    )
}

#[test]
fn can_withdraw_from_my_account() {
    let key_a = key(1);
    let key_b = key(2);
    let mut account_a = Account::with_bucket(key_a.clone(), xrd_bucket(1000));
    let mut account_b = Account::new(key_b);
    let auth = signature_proof(&key_a);

    let taken = account_a.withdraw(Decimal(100), &radix_token(), &auth).unwrap();
    account_b.deposit_batch(vec![taken]).unwrap();

    assert!(account_a.balance(&radix_token()).equals(&Decimal(900)));
    assert!(account_b.balance(&radix_token()).equals(&Decimal(100)));
}

#[test]
fn cannot_withdraw_from_other_account() {
    let key_a = key(1);
    let key_b = key(2);
    let mut account_a = Account::with_bucket(key_a, xrd_bucket(1000));
    let auth_b = signature_proof(&key_b);

    let r = account_a.withdraw(Decimal(100), &radix_token(), &auth_b);
    assert!(matches!(r, Err(BucketError::PermissionNotAllowed)));
    assert!(account_a.balance(&radix_token()).equals(&Decimal(1000)));
}

#[test]
fn account_to_bucket_to_account() {
    let key_a = key(1);
    let mut account_a = Account::with_bucket(key_a.clone(), xrd_bucket(1000));
    let auth = signature_proof(&key_a);
    let mut process = Process::new(0, false);

    let taken = account_a.withdraw(Decimal(50), &radix_token(), &auth).unwrap();
    process.worktop_put(taken).unwrap();
    process.worktop_take_all(&radix_token(), Bid(1024)).unwrap();
    let back = process.take_bucket(Bid(1024), BucketState::Moved).unwrap();
    account_a.deposit_batch(vec![back]).unwrap();

    assert!(account_a.balance(&radix_token()).equals(&Decimal(1000)));
    assert!(process.check_resource().is_ok());
}

#[test]
fn can_withdraw_non_fungible_from_my_account() {
    let key_a = key(1);
    let key_b = key(2);
    let resource = radix_token();
    let mut minted: AssocSet<NonFungibleKey> = AssocSet::new();
    minted.insert(NonFungibleKey::from_u128(1));
    minted.insert(NonFungibleKey::from_u128(2));
    minted.insert(NonFungibleKey::from_u128(3));
    let supply = Bucket::new(
        resource.clone(),
        ResourceType::NonFungible,
        Supply::NonFungible { keys: minted },
    );
    let mut account_a = Account::with_bucket(key_a.clone(), supply);
    let mut account_b = Account::new(key_b);
    let auth = signature_proof(&key_a);

    let wanted = vec![NonFungibleKey::from_u128(1)];
    let taken = account_a.withdraw_non_fungibles(&wanted, &resource, &auth).unwrap();
    let keys = taken.get_non_fungible_keys().unwrap();
    assert_eq!(keys.len(), 1);
    assert!(keys[0].equals(&NonFungibleKey::from_u128(1)));
    account_b.deposit_batch(vec![taken]).unwrap();

    assert!(account_a.balance(&resource).equals(&Decimal(2)));
    assert!(account_b.balance(&resource).equals(&Decimal(1)));
}

#[test]
fn duplicate_withdrawal_keys_are_refused() {
    let key_a = key(1);
    let resource = radix_token();
    let mut minted: AssocSet<NonFungibleKey> = AssocSet::new();
    minted.insert(NonFungibleKey::from_u128(1));
    let supply = Bucket::new(
        resource.clone(),
        ResourceType::NonFungible,
        Supply::NonFungible { keys: minted },
    );
    let mut account_a = Account::with_bucket(key_a.clone(), supply);
    let auth = signature_proof(&key_a);

    let wanted = vec![NonFungibleKey::from_u128(1), NonFungibleKey::from_u128(1)];
    let r = account_a.withdraw_non_fungibles(&wanted, &resource, &auth);
    assert!(matches!(r, Err(BucketError::NonFungibleNotFound)));
    assert!(account_a.balance(&resource).equals(&Decimal(1)));
}
