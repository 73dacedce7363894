//! The account blueprint's logic: a keyed owner and one vault per resource.
//!
//! An account accepts any deposit, and releases resources only to a caller
//! who presents a proof of the owner's signature key on the signature token.

use vstd::prelude::*;

use crate::assoc::AssocMap;
use crate::container::{spec_put, spec_take, Bucket, BucketError, BucketV, Vault};
use crate::decimal::Decimal;
use crate::resource_def::SupplyV;
use crate::types::{wk_body, Address, AddressV, EcdsaPublicKey, NonFungibleKey};

verus! {

/// Whether a presented proof witnesses the owner's signature: it must be of
/// the signature token and hold the owner's public key as a non-fungible
/// key.
pub open spec fn signature_witnessed(auth: BucketV, public_key: Seq<u8>) -> bool {
    &&& auth.resource_address == AddressV::ResourceDef(wk_body(5))
    &&& auth.contents matches SupplyV::NonFungible(ks) && ks.contains(public_key)
}

/// The abstract state of an account.
pub struct AccountV {
    pub public_key: Seq<u8>,
    pub vaults: Map<AddressV, BucketV>,
}

/// An account: an owner key and one vault per resource.
pub struct Account {
    public_key: EcdsaPublicKey,
    vaults: AssocMap<Address, Vault>,
}

impl View for Account {
    type V = AccountV;

    closed spec fn view(&self) -> AccountV {
        AccountV { public_key: self.public_key@, vaults: self.vaults@ }
    }
}

impl Account {
    pub closed spec fn wf(&self) -> bool {
        &&& self.vaults.wf()
        &&& forall|i: int|
            0 <= i < self.vaults.entry_seq().len() ==> (#[trigger] self.vaults.entry_seq()[
            i].1).wf()
        &&& forall|a: AddressV|
            self@.vaults.contains_key(a) ==> (#[trigger] self@.vaults[a]).resource_address == a
    }

    /// An account with no vaults yet.
    pub fn new(public_key: EcdsaPublicKey) -> (r: Self)
        ensures
            r.wf(),
            r@ == (AccountV { public_key: public_key@, vaults: Map::empty() }),
    {
        Account { public_key, vaults: AssocMap::new() }
    }

    /// An account born holding the contents of one bucket.
    pub fn with_bucket(public_key: EcdsaPublicKey, bucket: Bucket) -> (r: Self)
        requires
            bucket.wf(),
        ensures
            r.wf(),
            r@ == (AccountV {
                public_key: public_key@,
                vaults: Map::<AddressV, BucketV>::empty().insert(
                    bucket@.resource_address,
                    bucket@,
                ),
            }),
    {
        let mut vaults: AssocMap<Address, Vault> = AssocMap::new();
        let address = bucket.resource_address();
        vaults.insert(address, Vault::with_bucket(bucket));
        Account { public_key, vaults }
    }

    /// The owner's public key, as a non-fungible key of the signature token.
    pub fn non_fungible_key(&self) -> (r: NonFungibleKey)
        ensures
            r@ == self@.public_key,
    {
        NonFungibleKey::new(self.public_key.to_vec())
    }

    /// Deposits a bucket: into the vault of its resource, or into a fresh
    /// vault when the account has none for it yet.
    pub fn deposit(&mut self, bucket: Bucket) -> (r: Result<(), BucketError>)
        requires
            old(self).wf(),
            bucket.wf(),
        ensures
            final(self).wf(),
            ({
                let a = bucket@.resource_address;
                if !old(self)@.vaults.contains_key(a) {
                    r == Ok::<(), BucketError>(()) && final(self)@ == (AccountV {
                        vaults: old(self)@.vaults.insert(a, bucket@),
                        ..old(self)@
                    })
                } else {
                    match spec_put(old(self)@.vaults[a], bucket@) {
                        Ok(nv) => r == Ok::<(), BucketError>(()) && final(self)@ == (AccountV {
                            vaults: old(self)@.vaults.insert(a, nv),
                            ..old(self)@
                        }),
                        Err(e) => r == Err::<(), BucketError>(e) && final(self)@ == old(self)@,
                    }
                }
            }),
    {
        let address = bucket.resource_address();
        match self.vaults.remove_entry(&address) {
            Some((k, mut vault)) => {
                proof {
                    let pre = old(self).vaults.entry_seq();
                    let i = choose|i: int|
                        0 <= i < pre.len() && pre[i] == (k, vault) && self.vaults.entry_seq()
                            == pre.remove(i);
                    assert(pre[i].1.wf());
                    crate::container::lemma_vault_values_wf_after_remove(pre, i);
                }
                let outcome = vault.put(bucket);
                self.vaults.insert(k, vault);
                proof {
                    let a = bucket@.resource_address;
                    assert(old(self)@.vaults.remove(a).insert(a, vault@) =~= old(self)@.vaults.insert(a, vault@));
                    assert(old(self)@.vaults.insert(a, old(self)@.vaults[a]) =~= old(self)@.vaults);
                }
                match outcome {
                    Ok(_) => Ok(()),
                    Err(e) => Err(e),
                }
            },
            None => {
                self.vaults.insert(address, Vault::with_bucket(bucket));
                Ok(())
            },
        }
    }

    /// Deposits a batch of buckets, in order; the first failure stops the
    /// batch, and the transaction carrying it is then abandoned.
    #[verifier::loop_isolation(false)]
    pub fn deposit_batch(&mut self, buckets: Vec<Bucket>) -> (r: Result<(), BucketError>)
        requires
            old(self).wf(),
            forall|i: int| 0 <= i < buckets@.len() ==> (#[trigger] buckets@[i]).wf(),
        ensures
            final(self).wf(),
            final(self)@.public_key == old(self)@.public_key,
            ({
                let vs = buckets@.map(|i: int, b: Bucket| b@);
                match spec_deposit_all(old(self)@.vaults, vs) {
                    Ok(m) => r == Ok::<(), BucketError>(()) && final(self)@.vaults == m,
                    Err(e) => r == Err::<(), BucketError>(e),
                }
            }),
    {
        let ghost vs = buckets@.map(|i: int, b: Bucket| b@);
        let n = buckets.len();
        proof {
            assert(vs.take(0) =~= Seq::<BucketV>::empty());
            assert(vs.skip(0) =~= vs);
        }
        let mut i: usize = 0;
        while i < n
            invariant
                self.wf(),
                self@.public_key == old(self)@.public_key,
                i <= n,
                spec_deposit_all(old(self)@.vaults, vs.take(i as int)) == Ok::<
                    Map<AddressV, BucketV>,
                    BucketError,
                >(self@.vaults),
                spec_deposit_all(old(self)@.vaults, vs) == spec_deposit_all(
                    self@.vaults,
                    vs.skip(i as int),
                ),
            decreases n - i,
        {
            let bucket = buckets[i].dup();
            let ghost pre = self@.vaults;
            let outcome = self.deposit(bucket);
            match outcome {
                Ok(_) => {},
                Err(e) => {
                    proof {
                        assert(vs.skip(i as int)[0] == vs[i as int]);
                        assert(spec_deposit_one(pre, vs[i as int]) == Err::<
                            Map<AddressV, BucketV>,
                            BucketError,
                        >(e));
                    }
                    return Err(e);
                },
            }
            proof {
                assert(vs.skip(i as int)[0] == vs[i as int]);
                assert(vs.skip(i as int).skip(1) =~= vs.skip(i + 1));
                assert(spec_deposit_one(pre, vs[i as int]) == Ok::<
                    Map<AddressV, BucketV>,
                    BucketError,
                >(self@.vaults));
                assert(vs.take(i + 1).drop_last() =~= vs.take(i as int));
                assert(vs.take(i + 1).last() == vs[i as int]);
                lemma_spec_deposit_all_snoc(old(self)@.vaults, vs.take(i + 1));
            }
            i = i + 1;
        }
        proof {
            assert(vs.take(n as int) =~= vs);
        }
        Ok(())
    }

    /// Withdraws an amount, under the owner's signature.
    pub fn withdraw(
        &mut self,
        amount: Decimal,
        resource_address: &Address,
        account_auth: &Bucket,
    ) -> (r: Result<Bucket, BucketError>)
        requires
            old(self).wf(),
            account_auth.wf(),
        ensures
            final(self).wf(),
            final(self)@.public_key == old(self)@.public_key,
            ({
                let a = resource_address@;
                if !signature_witnessed(account_auth@, old(self)@.public_key) {
                    r == Err::<Bucket, BucketError>(BucketError::PermissionNotAllowed)
                        && final(self)@ == old(self)@
                } else if !old(self)@.vaults.contains_key(a) {
                    r == Err::<Bucket, BucketError>(BucketError::InsufficientBalance)
                        && final(self)@ == old(self)@
                } else {
                    match spec_take(old(self)@.vaults[a], amount@) {
                        Ok(pair) => (r matches Ok(b) && b.wf() && b@ == pair.1 && final(self)@
                            == (AccountV {
                            vaults: old(self)@.vaults.insert(a, pair.0),
                            ..old(self)@
                        })),
                        Err(e) => r == Err::<Bucket, BucketError>(e) && final(self)@ == old(self)@,
                    }
                }
            }),
    {
        if !self.check_signature(account_auth) {
            return Err(BucketError::PermissionNotAllowed);
        }
        match self.vaults.remove_entry(resource_address) {
            Some((k, mut vault)) => {
                proof {
                    let pre = old(self).vaults.entry_seq();
                    let i = choose|i: int|
                        0 <= i < pre.len() && pre[i] == (k, vault) && self.vaults.entry_seq()
                            == pre.remove(i);
                    assert(pre[i].1.wf());
                    crate::container::lemma_vault_values_wf_after_remove(pre, i);
                }
                let outcome = vault.take(amount);
                self.vaults.insert(k, vault);
                proof {
                    let a = resource_address@;
                    assert(old(self)@.vaults.remove(a).insert(a, vault@) =~= old(self)@.vaults.insert(a, vault@));
                    assert(old(self)@.vaults.insert(a, old(self)@.vaults[a]) =~= old(self)@.vaults);
                }
                outcome
            },
            None => Err(BucketError::InsufficientBalance),
        }
    }

    /// Withdraws the non-fungible units with the given keys, under the
    /// owner's signature; all of them or none.
    pub fn withdraw_non_fungibles(
        &mut self,
        keys: &Vec<NonFungibleKey>,
        resource_address: &Address,
        account_auth: &Bucket,
    ) -> (r: Result<Bucket, BucketError>)
        requires
            old(self).wf(),
            account_auth.wf(),
        ensures
            final(self).wf(),
            final(self)@.public_key == old(self)@.public_key,
            ({
                let a = resource_address@;
                let kv = keys@.map(|i: int, k: NonFungibleKey| k@);
                if !signature_witnessed(account_auth@, old(self)@.public_key) {
                    r == Err::<Bucket, BucketError>(BucketError::PermissionNotAllowed)
                        && final(self)@ == old(self)@
                } else if !old(self)@.vaults.contains_key(a) {
                    r == Err::<Bucket, BucketError>(BucketError::InsufficientBalance)
                        && final(self)@ == old(self)@
                } else {
                    match old(self)@.vaults[a].contents {
                        SupplyV::NonFungible(ks) => {
                            if kv.no_duplicates() && (forall|i: int|
                                0 <= i < kv.len() ==> ks.contains(#[trigger] kv[i])) {
                                r matches Ok(b) && b.wf() && b@ == (BucketV {
                                    resource_address: old(self)@.vaults[a].resource_address,
                                    resource_type: old(self)@.vaults[a].resource_type,
                                    contents: SupplyV::NonFungible(kv.to_set()),
                                }) && final(self)@ == (AccountV {
                                    vaults: old(self)@.vaults.insert(
                                        a,
                                        BucketV {
                                            contents: SupplyV::NonFungible(
                                                ks.difference(kv.to_set()),
                                            ),
                                            ..old(self)@.vaults[a]
                                        },
                                    ),
                                    ..old(self)@
                                })
                            } else {
                                r == Err::<Bucket, BucketError>(
                                    BucketError::NonFungibleNotFound,
                                ) && final(self)@ == old(self)@
                            }
                        },
                        SupplyV::Fungible(_) => r == Err::<Bucket, BucketError>(
                            BucketError::UnsupportedOperation,
                        ) && final(self)@ == old(self)@,
                    }
                }
            }),
    {
        if !self.check_signature(account_auth) {
            return Err(BucketError::PermissionNotAllowed);
        }
        match self.vaults.remove_entry(resource_address) {
            Some((k, mut vault)) => {
                proof {
                    let pre = old(self).vaults.entry_seq();
                    let i = choose|i: int|
                        0 <= i < pre.len() && pre[i] == (k, vault) && self.vaults.entry_seq()
                            == pre.remove(i);
                    assert(pre[i].1.wf());
                    crate::container::lemma_vault_values_wf_after_remove(pre, i);
                }
                let outcome = vault.take_non_fungibles(keys);
                self.vaults.insert(k, vault);
                proof {
                    let a = resource_address@;
                    assert(old(self)@.vaults.remove(a).insert(a, vault@) =~= old(self)@.vaults.insert(a, vault@));
                    assert(old(self)@.vaults.insert(a, old(self)@.vaults[a]) =~= old(self)@.vaults);
                }
                outcome
            },
            None => Err(BucketError::InsufficientBalance),
        }
    }

    /// Whether the presented proof witnesses the owner's signature.
    fn check_signature(&self, account_auth: &Bucket) -> (r: bool)
        requires
            account_auth.wf(),
        ensures
            r == signature_witnessed(account_auth@, self@.public_key),
    {
        let token = crate::types::ecdsa_token();
        let key = self.non_fungible_key();
        account_auth.resource_address().equals(&token) && account_auth.contains_non_fungible(
            &key,
        )
    }

    /// The balance held for a resource: the vault's quantity, or zero.
    pub fn balance(&self, resource_address: &Address) -> (r: Decimal)
        requires
            self.wf(),
        ensures
            self@.vaults.contains_key(resource_address@) ==> r@ == self@.vaults[
            resource_address@].contents.amount(),
            !self@.vaults.contains_key(resource_address@) ==> r@ == 0,
    {
        match self.vaults.get(resource_address) {
            Some(v) => {
                proof {
                    let j = choose|j: int|
                        0 <= j < self.vaults.entry_seq().len() && self.vaults.entry_seq()[
                        j].1 == *v;
                }
                v.amount()
            },
            None => Decimal::zero(),
        }
    }
}

/// The balance an account map holds for a resource: the vault's quantity,
/// or zero where there is no vault.
pub open spec fn balance_of(vaults: Map<AddressV, BucketV>, r: AddressV) -> int {
    if vaults.contains_key(r) {
        vaults[r].contents.amount()
    } else {
        0
    }
}

/// Law: an account-to-account transfer conserves quantity.  When a
/// withdrawal from one account succeeds and the bucket is deposited into
/// another, the two balances together are unchanged, and no other resource
/// of either account moves.
pub proof fn lemma_transfer_conserves(
    a0: Map<AddressV, BucketV>,
    b0: Map<AddressV, BucketV>,
    r: AddressV,
    amount: int,
    a1: Map<AddressV, BucketV>,
    b1: Map<AddressV, BucketV>,
    taken: BucketV,
)
    requires
        a0.contains_key(r),
        spec_take(a0[r], amount) matches Ok(pair) && a1 == a0.insert(r, pair.0) && taken
            == pair.1,
        spec_deposit_one(b0, taken) == Ok::<Map<AddressV, BucketV>, BucketError>(b1),
        taken.resource_address == r,
        forall|k: AddressV| b0.contains_key(k) ==> (#[trigger] b0[k]).resource_address == k,
    ensures
        balance_of(a1, r) + balance_of(b1, r) == balance_of(a0, r) + balance_of(b0, r),
        forall|k: AddressV| k != r ==> balance_of(a1, k) == balance_of(a0, k),
        forall|k: AddressV| k != r ==> balance_of(b1, k) == balance_of(b0, k),
{
    let pair = spec_take(a0[r], amount)->Ok_0;
    assert(a0[r].contents is Fungible);
    assert(taken.contents == SupplyV::Fungible(amount));
    if b0.contains_key(r) {
        assert(b1 == b0.insert(r, spec_put(b0[r], taken)->Ok_0));
    }
}

/// What one deposit does at the abstract level.
pub open spec fn spec_deposit_one(vaults: Map<AddressV, BucketV>, b: BucketV) -> Result<
    Map<AddressV, BucketV>,
    BucketError,
> {
    let a = b.resource_address;
    if !vaults.contains_key(a) {
        Ok(vaults.insert(a, b))
    } else {
        match spec_put(vaults[a], b) {
            Ok(nv) => Ok(vaults.insert(a, nv)),
            Err(e) => Err(e),
        }
    }
}

/// What depositing a sequence of buckets does, in order.
pub open spec fn spec_deposit_all(vaults: Map<AddressV, BucketV>, bs: Seq<BucketV>) -> Result<
    Map<AddressV, BucketV>,
    BucketError,
>
    decreases bs.len(),
{
    if bs.len() == 0 {
        Ok(vaults)
    } else {
        match spec_deposit_one(vaults, bs[0]) {
            Ok(m) => spec_deposit_all(m, bs.skip(1)),
            Err(e) => Err(e),
        }
    }
}

/// Peeling the last deposit off a sequence.
pub proof fn lemma_spec_deposit_all_snoc(vaults: Map<AddressV, BucketV>, bs: Seq<BucketV>)
    requires
        bs.len() > 0,
        spec_deposit_all(vaults, bs.drop_last()) is Ok,
    ensures
        (spec_deposit_all(vaults, bs.drop_last()) matches Ok(m) ==> spec_deposit_all(vaults, bs)
            == spec_deposit_one(m, bs.last())),
    decreases bs.len(),
{
    if bs.len() == 1 {
        assert(bs.skip(1) =~= Seq::<BucketV>::empty());
        assert(bs.drop_last() =~= Seq::<BucketV>::empty());
        assert(spec_deposit_all(vaults, bs.drop_last()) == Ok::<
            Map<AddressV, BucketV>,
            BucketError,
        >(vaults));
        assert(bs.last() == bs[0]);
        match spec_deposit_one(vaults, bs[0]) {
            Ok(m) => {
                assert(spec_deposit_all(vaults, bs) == spec_deposit_all(m, bs.skip(1)));
                assert(spec_deposit_all(m, bs.skip(1)) == Ok::<
                    Map<AddressV, BucketV>,
                    BucketError,
                >(m));
            },
            Err(e) => {
                assert(spec_deposit_all(vaults, bs) == Err::<
                    Map<AddressV, BucketV>,
                    BucketError,
                >(e));
            },
        }
    } else {
        assert(bs.drop_last()[0] == bs[0]);
        match spec_deposit_one(vaults, bs[0]) {
            Ok(m) => {
                assert(bs.skip(1).drop_last() =~= bs.drop_last().skip(1));
                assert(bs.skip(1).last() == bs.last());
                lemma_spec_deposit_all_snoc(m, bs.skip(1));
                assert(spec_deposit_all(vaults, bs) == spec_deposit_all(m, bs.skip(1)));
                assert(spec_deposit_all(vaults, bs.drop_last()) == spec_deposit_all(
                    m,
                    bs.drop_last().skip(1),
                ));
                assert(spec_deposit_all(m, bs.skip(1).drop_last()) == spec_deposit_all(
                    m,
                    bs.drop_last().skip(1),
                ));
                assert(spec_deposit_all(vaults, bs) == spec_deposit_one(
                    spec_deposit_all(vaults, bs.drop_last())->Ok_0,
                    bs.last(),
                ));
            },
            Err(_) => {},
        }
    }
}

} // verus!
