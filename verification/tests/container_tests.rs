use radix_engine::assoc::AssocSet;
use radix_engine::container::{Bucket, BucketError, Vault};
use radix_engine::decimal::Decimal;
use radix_engine::resource_def::{ResourceType, Supply};
use radix_engine::types::{radix_token, NonFungibleKey};

fn xrd_bucket(amount: i128) -> Bucket {
    Bucket::new(
        radix_token(),
        ResourceType::Fungible { divisibility: 18 },
        Supply::Fungible { amount: Decimal(amount) },
    )
}

fn nf_bucket(keys: &[u128]) -> Bucket {
    let mut set: AssocSet<NonFungibleKey> = AssocSet::new();
    for k in keys {
        set.insert(NonFungibleKey::from_u128(*k));
    }
    Bucket::new(
        radix_token(),
        ResourceType::NonFungible,
        Supply::NonFungible { keys: set },
    )
}

#[test]
fn vault_put_then_take_round_trips() {
    let mut vault = Vault::with_bucket(xrd_bucket(1000));
    vault.put(xrd_bucket(70)).unwrap();
    assert!(vault.amount().equals(&Decimal(1070)));
    let taken = vault.take(Decimal(70)).unwrap();
    assert!(taken.amount().equals(&Decimal(70)));
    assert!(vault.amount().equals(&Decimal(1000)));
}

#[test]
fn take_zero_from_empty_vault_succeeds() {
    let mut vault = Vault::with_bucket(xrd_bucket(0));
    let taken = vault.take(Decimal(0)).unwrap();
    assert!(taken.is_empty());
    assert!(vault.amount().equals(&Decimal(0)));
}

#[test]
fn take_rejects_negative_amounts() {
    let mut vault = Vault::with_bucket(xrd_bucket(10));
    let r = vault.take(Decimal(-1));
    assert!(matches!(r, Err(BucketError::InvalidAmount(_))));
}

#[test]
fn take_rejects_insufficient_balance() {
    let mut vault = Vault::with_bucket(xrd_bucket(10));
    let r = vault.take(Decimal(11));
    assert!(matches!(r, Err(BucketError::InsufficientBalance)));
    assert!(vault.amount().equals(&Decimal(10)));
}

#[test]
fn put_rejects_mismatching_resource() {
    let mut vault = Vault::with_bucket(xrd_bucket(10));
    let other = Bucket::new(
        radix_engine::types::ecdsa_token(),
        ResourceType::Fungible { divisibility: 18 },
        Supply::Fungible { amount: Decimal(1) },
    );
    let r = vault.put(other);
    assert!(matches!(r, Err(BucketError::ResourceNotMatching)));
}

#[test]
fn put_rejects_duplicated_non_fungible_key() {
    let mut vault = Vault::with_bucket(nf_bucket(&[1, 2]));
    let r = vault.put(nf_bucket(&[2, 3]));
    assert!(matches!(r, Err(BucketError::DuplicatedNonFungibleKey)));
    assert!(vault.amount().equals(&Decimal(2)));
    vault.put(nf_bucket(&[3, 4])).unwrap();
    assert!(vault.amount().equals(&Decimal(4)));
}

#[test]
fn take_non_fungible_moves_exactly_one_key() {
    let mut vault = Vault::with_bucket(nf_bucket(&[1, 2, 3]));
    let key = NonFungibleKey::from_u128(2);
    let taken = vault.take_non_fungible(&key).unwrap();
    assert!(taken.amount().equals(&Decimal(1)));
    assert!(vault.amount().equals(&Decimal(2)));
    let r = vault.take_non_fungible(&key);
    assert!(matches!(r, Err(BucketError::NonFungibleNotFound)));
    let left = vault.get_non_fungible_keys().unwrap();
    assert_eq!(left.len(), 2);
    assert!(left.iter().any(|k| k.equals(&NonFungibleKey::from_u128(1))));
    assert!(left.iter().any(|k| k.equals(&NonFungibleKey::from_u128(3))));
}
