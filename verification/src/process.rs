//! A call frame: the linear-asset bookkeeping around one invocation.
//!
//! Buckets are linearly owned: a bucket born in a frame is in the `Active`
//! table until it is moved to another frame, stored into a vault, or burned,
//! and each of those ends leaves a terminal record behind.  Proofs are
//! non-owning snapshots of live buckets.  The worktop stages buckets between
//! instructions, one per resource.  A frame that still owns an active bucket
//! or a non-empty worktop cannot exit cleanly.

use vstd::prelude::*;

use crate::assoc::{AssocMap, MapKey};
use crate::container::{spec_put, spec_take, Bucket, BucketError, BucketV};
use crate::decimal::Decimal;
use crate::resource_def::SupplyV;
use crate::container::Vault;
use crate::types::{Address, AddressV, Bid, NonFungibleKey, Rid, Vid};

verus! {

/// Where a bucket of a frame stands in its life.
#[derive(Debug, Clone, Copy, PartialEq, Eq, Structural)]
pub enum BucketState {
    Active,
    Moved,
    Stored,
    Burned,
}

impl View for BucketState {
    type V = BucketState;

    open spec fn view(&self) -> BucketState {
        *self
    }
}

/// An error from frame bookkeeping.
#[derive(Debug, Clone, PartialEq, Eq, Structural)]
pub enum ProcessError {
    BucketNotFound,
    ProofNotFound,
    BucketIdInUse,
    ProofIdInUse,
    ResourceFailure(BucketError),
    WorktopResourceMissing,
    WorktopInsufficientBalance,
    DanglingBuckets,
    DanglingVaults,
    WorktopNotEmpty,
    VaultNotFound,
    VaultIdInUse,
}

/// The abstract state of a frame.
pub struct ProcessV {
    pub depth: usize,
    pub buckets: Map<Bid, BucketV>,
    pub consumed: Map<Bid, BucketState>,
    pub proofs: Map<Rid, BucketV>,
    pub worktop: Map<AddressV, BucketV>,
    pub unclaimed_vaults: Map<(Seq<u8>, u32), BucketV>,
}

impl ProcessV {
    /// Every bid this frame has ever owned.
    pub open spec fn created(self) -> Set<Bid> {
        self.buckets.dom().union(self.consumed.dom())
    }

    /// Consistency of the abstract state: a bid is never both active and
    /// consumed, a consumed record is terminal, and the worktop holds one
    /// bucket per resource, under its own resource address.
    pub open spec fn inv(self) -> bool {
        &&& forall|b: Bid| !(self.buckets.contains_key(b) && self.consumed.contains_key(b))
        &&& forall|b: Bid|
            self.consumed.contains_key(b) ==> #[trigger] self.consumed[b] != BucketState::Active
        &&& forall|a: AddressV|
            self.worktop.contains_key(a) ==> (#[trigger] self.worktop[a]).resource_address == a
    }
}

/// A call frame.
pub struct Process {
    depth: usize,
    trace: bool,
    buckets: AssocMap<Bid, Bucket>,
    consumed: AssocMap<Bid, BucketState>,
    proofs: AssocMap<Rid, Bucket>,
    worktop: AssocMap<Address, Bucket>,
    unclaimed_vaults: AssocMap<Vid, Vault>,
}

impl View for Process {
    type V = ProcessV;

    closed spec fn view(&self) -> ProcessV {
        ProcessV {
            depth: self.depth,
            buckets: self.buckets@,
            consumed: self.consumed@,
            proofs: self.proofs@,
            worktop: self.worktop@,
            unclaimed_vaults: self.unclaimed_vaults@,
        }
    }
}

impl Process {
    pub closed spec fn wf(&self) -> bool {
        &&& self.buckets.wf()
        &&& self.consumed.wf()
        &&& self.proofs.wf()
        &&& self.worktop.wf()
        &&& self@.inv()
        &&& forall|i: int|
            0 <= i < self.buckets.entry_seq().len() ==> (#[trigger] self.buckets.entry_seq()[
            i].1).wf()
        &&& forall|i: int|
            0 <= i < self.proofs.entry_seq().len() ==> (#[trigger] self.proofs.entry_seq()[
            i].1).wf()
        &&& forall|i: int|
            0 <= i < self.worktop.entry_seq().len() ==> (#[trigger] self.worktop.entry_seq()[
            i].1).wf()
        &&& self.unclaimed_vaults.wf()
        &&& forall|i: int|
            0 <= i < self.unclaimed_vaults.entry_seq().len() ==> (#[trigger]
            self.unclaimed_vaults.entry_seq()[i].1).wf()
    }

    /// A fresh frame at a call depth.
    pub fn new(depth: usize, trace: bool) -> (r: Self)
        ensures
            r.wf(),
            r@ == (ProcessV {
                depth,
                buckets: Map::empty(),
                consumed: Map::empty(),
                proofs: Map::empty(),
                worktop: Map::empty(),
                unclaimed_vaults: Map::empty(),
            }),
    {
        Process {
            depth,
            trace,
            buckets: AssocMap::new(),
            consumed: AssocMap::new(),
            proofs: AssocMap::new(),
            worktop: AssocMap::new(),
            unclaimed_vaults: AssocMap::new(),
        }
    }

    pub fn depth(&self) -> (r: usize)
        ensures
            r == self@.depth,
    {
        self.depth
    }

    /// Whether the worktop stages anything for a resource.
    pub fn worktop_has(&self, resource_address: &Address) -> (r: bool)
        requires
            self.wf(),
        ensures
            r == self@.worktop.contains_key(resource_address@),
    {
        self.worktop.contains_key(resource_address)
    }

    /// Whether a bid is active in this frame.
    pub fn bucket_exists(&self, bid: Bid) -> (r: bool)
        requires
            self.wf(),
        ensures
            r == self@.buckets.contains_key(bid),
    {
        self.buckets.contains_key(&bid)
    }

    /// Whether a proof id is live in this frame.
    pub fn proof_exists(&self, rid: Rid) -> (r: bool)
        requires
            self.wf(),
        ensures
            r == self@.proofs.contains_key(rid),
    {
        self.proofs.contains_key(&rid)
    }

    /// Whether a bid was ever owned by this frame.
    pub fn bid_created(&self, bid: Bid) -> (r: bool)
        requires
            self.wf(),
        ensures
            r == self@.created().contains(bid),
    {
        self.buckets.contains_key(&bid) || self.consumed.contains_key(&bid)
    }

    /// Seeds a bucket and its proof under reserved ids; used for the
    /// virtual signature bucket of the root frame.
    pub fn create_virtual_bucket_ref(&mut self, bid: Bid, rid: Rid, bucket: Bucket)
        requires
            old(self).wf(),
            bucket.wf(),
            !old(self)@.created().contains(bid),
            !old(self)@.proofs.contains_key(rid),
        ensures
            final(self).wf(),
            final(self)@ == (ProcessV {
                buckets: old(self)@.buckets.insert(bid, bucket@),
                proofs: old(self)@.proofs.insert(rid, bucket@),
                ..old(self)@
            }),
    {
        let snapshot = bucket.dup();
        self.buckets.insert(bid, bucket);
        self.proofs.insert(rid, snapshot);
    }

    /// Adds a new active bucket under a fresh bid.
    pub fn insert_bucket(&mut self, bid: Bid, bucket: Bucket) -> (r: Result<(), ProcessError>)
        requires
            old(self).wf(),
            bucket.wf(),
        ensures
            final(self).wf(),
            old(self)@.created().contains(bid) ==> r == Err::<(), ProcessError>(
                ProcessError::BucketIdInUse,
            ) && final(self)@ == old(self)@,
            !old(self)@.created().contains(bid) ==> r == Ok::<(), ProcessError>(()) && final(self)@ == (ProcessV { buckets: old(self)@.buckets.insert(bid, bucket@), ..old(self)@ }),
    {
        if self.bid_created(bid) {
            return Err(ProcessError::BucketIdInUse);
        }
        self.buckets.insert(bid, bucket);
        Ok(())
    }

    /// The amount in an active bucket.
    pub fn bucket_amount(&self, bid: Bid) -> (r: Result<Decimal, ProcessError>)
        requires
            self.wf(),
        ensures
            match r {
                Ok(a) => self@.buckets.contains_key(bid) && a@ == self@.buckets[
                bid].contents.amount(),
                Err(e) => !self@.buckets.contains_key(bid) && e == ProcessError::BucketNotFound,
            },
    {
        match self.buckets.get(&bid) {
            Some(b) => {
                proof {
                    let j = choose|j: int|
                        0 <= j < self.buckets.entry_seq().len() && self.buckets.entry_seq()[
                        j].1 == *b;
                }
                Ok(b.amount())
            },
            None => Err(ProcessError::BucketNotFound),
        }
    }

    /// The resource an active bucket holds.
    pub fn bucket_resource_address(&self, bid: Bid) -> (r: Result<Address, ProcessError>)
        requires
            self.wf(),
        ensures
            match r {
                Ok(a) => self@.buckets.contains_key(bid) && a@ == self@.buckets[
                bid].resource_address,
                Err(e) => !self@.buckets.contains_key(bid) && e == ProcessError::BucketNotFound,
            },
    {
        match self.buckets.get(&bid) {
            Some(b) => Ok(b.resource_address()),
            None => Err(ProcessError::BucketNotFound),
        }
    }

    /// Takes an active bucket out of the frame, recording how it ends.
    pub fn take_bucket(&mut self, bid: Bid, disposition: BucketState) -> (r: Result<
        Bucket,
        ProcessError,
    >)
        requires
            old(self).wf(),
            disposition != BucketState::Active,
        ensures
            final(self).wf(),
            match r {
                Ok(b) => old(self)@.buckets.contains_key(bid) && b.wf() && b@ == old(self)@.buckets[bid] && final(self)@ == (ProcessV {
                    buckets: old(self)@.buckets.remove(bid),
                    consumed: old(self)@.consumed.insert(bid, disposition),
                    ..old(self)@
                }),
                Err(e) => !old(self)@.buckets.contains_key(bid) && e
                    == ProcessError::BucketNotFound && final(self)@ == old(self)@,
            },
    {
        match self.buckets.remove_entry(&bid) {
            Some((taken_key, bucket)) => {
                proof {
                    let pre = old(self).buckets.entry_seq();
                    let i = choose|i: int|
                        0 <= i < pre.len() && pre[i] == (taken_key, bucket)
                            && self.buckets.entry_seq() == pre.remove(i);
                    assert(pre[i].1.wf());
                    lemma_bucket_values_wf_after_remove(pre, i);
                }
                self.consumed.insert(bid, disposition);
                Ok(bucket)
            },
            None => Err(ProcessError::BucketNotFound),
        }
    }

    /// Moves the contents of one bucket into another active bucket.
    pub fn put_into_bucket(&mut self, bid: Bid, other: Bucket) -> (r: Result<(), ProcessError>)
        requires
            old(self).wf(),
            other.wf(),
        ensures
            final(self).wf(),
            !old(self)@.buckets.contains_key(bid) ==> r == Err::<(), ProcessError>(
                ProcessError::BucketNotFound,
            ) && final(self)@ == old(self)@,
            old(self)@.buckets.contains_key(bid) ==> match spec_put(
                old(self)@.buckets[bid],
                other@,
            ) {
                Ok(nv) => r == Ok::<(), ProcessError>(()) && final(self)@ == (ProcessV {
                    buckets: old(self)@.buckets.insert(bid, nv),
                    ..old(self)@
                }),
                Err(e) => r == Err::<(), ProcessError>(ProcessError::ResourceFailure(e))
                    && final(self)@ == old(self)@,
            },
    {
        match self.buckets.remove_entry(&bid) {
            Some((k, mut bucket)) => {
                proof {
                    let pre = old(self).buckets.entry_seq();
                    let i = choose|i: int|
                        0 <= i < pre.len() && pre[i] == (k, bucket)
                            && self.buckets.entry_seq() == pre.remove(i);
                    assert(pre[i].1.wf());
                    lemma_bucket_values_wf_after_remove(pre, i);
                }
                let outcome = bucket.put(other);
                self.buckets.insert(k, bucket);
                proof {
                    assert(old(self)@.buckets.remove(bid).insert(bid, bucket@) =~= old(
                        self,
                    )@.buckets.insert(bid, bucket@));
                    assert(old(self)@.buckets.insert(bid, old(self)@.buckets[bid]) =~= old(
                        self,
                    )@.buckets);
                }
                match outcome {
                    Ok(_) => Ok(()),
                    Err(e) => Err(ProcessError::ResourceFailure(e)),
                }
            },
            None => Err(ProcessError::BucketNotFound),
        }
    }

    /// Splits an amount out of an active bucket into a fresh one.
    pub fn take_from_bucket(&mut self, bid: Bid, amount: Decimal, new_bid: Bid) -> (r: Result<
        (),
        ProcessError,
    >)
        requires
            old(self).wf(),
        ensures
            final(self).wf(),
            !old(self)@.buckets.contains_key(bid) ==> r == Err::<(), ProcessError>(
                ProcessError::BucketNotFound,
            ) && final(self)@ == old(self)@,
            old(self)@.buckets.contains_key(bid) && old(self)@.created().contains(new_bid)
                ==> r == Err::<(), ProcessError>(ProcessError::BucketIdInUse) && final(self)@
                == old(self)@,
            old(self)@.buckets.contains_key(bid) && !old(self)@.created().contains(new_bid)
                ==> match spec_take(old(self)@.buckets[bid], amount@) {
                Ok(pair) => r == Ok::<(), ProcessError>(()) && final(self)@ == (ProcessV {
                    buckets: old(self)@.buckets.insert(bid, pair.0).insert(new_bid, pair.1),
                    ..old(self)@
                }),
                Err(e) => r == Err::<(), ProcessError>(ProcessError::ResourceFailure(e))
                    && final(self)@ == old(self)@,
            },
    {
        if !self.buckets.contains_key(&bid) {
            return Err(ProcessError::BucketNotFound);
        }
        if self.bid_created(new_bid) {
            return Err(ProcessError::BucketIdInUse);
        }
        match self.buckets.remove_entry(&bid) {
            Some((k, mut bucket)) => {
                proof {
                    let pre = old(self).buckets.entry_seq();
                    let i = choose|i: int|
                        0 <= i < pre.len() && pre[i] == (k, bucket)
                            && self.buckets.entry_seq() == pre.remove(i);
                    assert(pre[i].1.wf());
                    lemma_bucket_values_wf_after_remove(pre, i);
                }
                let outcome = bucket.take(amount);
                self.buckets.insert(k, bucket);
                proof {
                    assert(old(self)@.buckets.remove(bid).insert(bid, bucket@) =~= old(
                        self,
                    )@.buckets.insert(bid, bucket@));
                    assert(old(self)@.buckets.insert(bid, old(self)@.buckets[bid]) =~= old(
                        self,
                    )@.buckets);
                }
                match outcome {
                    Ok(taken) => {
                        self.buckets.insert(new_bid, taken);
                        Ok(())
                    },
                    Err(e) => Err(ProcessError::ResourceFailure(e)),
                }
            },
            None => Err(ProcessError::BucketNotFound),
        }
    }

    /// Snapshots an active bucket as a proof.
    pub fn create_proof(&mut self, bid: Bid, rid: Rid) -> (r: Result<(), ProcessError>)
        requires
            old(self).wf(),
        ensures
            final(self).wf(),
            !old(self)@.buckets.contains_key(bid) ==> r == Err::<(), ProcessError>(
                ProcessError::BucketNotFound,
            ) && final(self)@ == old(self)@,
            old(self)@.buckets.contains_key(bid) && old(self)@.proofs.contains_key(rid) ==> r
                == Err::<(), ProcessError>(ProcessError::ProofIdInUse) && final(self)@ == old(self)@,
            old(self)@.buckets.contains_key(bid) && !old(self)@.proofs.contains_key(rid) ==> r
                == Ok::<(), ProcessError>(()) && final(self)@ == (ProcessV {
                proofs: old(self)@.proofs.insert(rid, old(self)@.buckets[bid]),
                ..old(self)@
            }),
    {
        if self.proofs.contains_key(&rid) {
            if self.buckets.contains_key(&bid) {
                return Err(ProcessError::ProofIdInUse);
            }
            return Err(ProcessError::BucketNotFound);
        }
        let snapshot = match self.buckets.get(&bid) {
            Some(b) => {
                proof {
                    let j = choose|j: int|
                        0 <= j < self.buckets.entry_seq().len() && self.buckets.entry_seq()[
                        j].1 == *b;
                }
                b.dup()
            },
            None => {
                return Err(ProcessError::BucketNotFound);
            },
        };
        self.proofs.insert(rid, snapshot);
        Ok(())
    }

    /// Clones a proof under a new id.
    pub fn clone_proof(&mut self, rid: Rid, new_rid: Rid) -> (r: Result<(), ProcessError>)
        requires
            old(self).wf(),
        ensures
            final(self).wf(),
            !old(self)@.proofs.contains_key(rid) ==> r == Err::<(), ProcessError>(
                ProcessError::ProofNotFound,
            ) && final(self)@ == old(self)@,
            old(self)@.proofs.contains_key(rid) && old(self)@.proofs.contains_key(new_rid)
                ==> r == Err::<(), ProcessError>(ProcessError::ProofIdInUse) && final(self)@
                == old(self)@,
            old(self)@.proofs.contains_key(rid) && !old(self)@.proofs.contains_key(new_rid)
                ==> r == Ok::<(), ProcessError>(()) && final(self)@ == (ProcessV {
                proofs: old(self)@.proofs.insert(new_rid, old(self)@.proofs[rid]),
                ..old(self)@
            }),
    {
        if !self.proofs.contains_key(&rid) {
            return Err(ProcessError::ProofNotFound);
        }
        if self.proofs.contains_key(&new_rid) {
            return Err(ProcessError::ProofIdInUse);
        }
        let snapshot = match self.proofs.get(&rid) {
            Some(b) => {
                proof {
                    let j = choose|j: int|
                        0 <= j < self.proofs.entry_seq().len() && self.proofs.entry_seq()[
                        j].1 == *b;
                }
                b.dup()
            },
            None => vstd::pervasive::unreached(),
        };
        self.proofs.insert(new_rid, snapshot);
        Ok(())
    }

    /// Drops a proof.
    pub fn drop_proof(&mut self, rid: Rid) -> (r: Result<(), ProcessError>)
        requires
            old(self).wf(),
        ensures
            final(self).wf(),
            !old(self)@.proofs.contains_key(rid) ==> r == Err::<(), ProcessError>(
                ProcessError::ProofNotFound,
            ) && final(self)@ == old(self)@,
            old(self)@.proofs.contains_key(rid) ==> r == Ok::<(), ProcessError>(()) && final(self)@ == (ProcessV { proofs: old(self)@.proofs.remove(rid), ..old(self)@ }),
    {
        match self.proofs.remove_entry(&rid) {
            Some(_) => Ok(()),
            None => Err(ProcessError::ProofNotFound),
        }
    }

    /// Drops every remaining proof, as a frame exit does.
    pub fn drop_all_proofs(&mut self)
        requires
            old(self).wf(),
        ensures
            final(self).wf(),
            final(self)@ == (ProcessV { proofs: Map::empty(), ..old(self)@ }),
    {
        self.proofs = AssocMap::new();
    }

    /// A copy of a proof's snapshot.
    pub fn get_proof(&self, rid: Rid) -> (r: Result<Bucket, ProcessError>)
        requires
            self.wf(),
        ensures
            match r {
                Ok(b) => self@.proofs.contains_key(rid) && b@ == self@.proofs[rid] && b.wf(),
                Err(e) => !self@.proofs.contains_key(rid) && e == ProcessError::ProofNotFound,
            },
    {
        match self.proofs.get(&rid) {
            Some(b) => {
                proof {
                    let j = choose|j: int|
                        0 <= j < self.proofs.entry_seq().len() && self.proofs.entry_seq()[
                        j].1 == *b;
                }
                Ok(b.dup())
            },
            None => Err(ProcessError::ProofNotFound),
        }
    }

    /// Whether a proof witnesses the given non-fungible key of a resource.
    #[verifier::loop_isolation(false)]
    pub fn proof_contains_non_fungible(
        &self,
        rid: Rid,
        resource_address: &Address,
        key: &NonFungibleKey,
    ) -> (r: Result<bool, ProcessError>)
        requires
            self.wf(),
        ensures
            match r {
                Ok(b) => self@.proofs.contains_key(rid) && b == (self@.proofs[
                rid].resource_address == resource_address@ && (self@.proofs[
                rid].contents matches SupplyV::NonFungible(ks) && ks.contains(key@))),
                Err(e) => !self@.proofs.contains_key(rid) && e == ProcessError::ProofNotFound,
            },
    {
        let snapshot = match self.proofs.get(&rid) {
            Some(b) => {
                proof {
                    let j = choose|j: int|
                        0 <= j < self.proofs.entry_seq().len() && self.proofs.entry_seq()[
                        j].1 == *b;
                }
                b
            },
            None => {
                return Err(ProcessError::ProofNotFound);
            },
        };
        if !snapshot.resource_address().equals(resource_address) {
            return Ok(false);
        }
        match snapshot.get_non_fungible_keys() {
            Ok(keys) => {
                let mut i: usize = 0;
                while i < keys.len()
                    invariant
                        i <= keys@.len(),
                        forall|j: int| 0 <= j < i ==> keys@[j]@ != key@,
                    decreases keys@.len() - i,
                {
                    if keys[i].equals(key) {
                        return Ok(true);
                    }
                    i = i + 1;
                }
                proof {
                    match self@.proofs[rid].contents {
                        SupplyV::NonFungible(ks) => {
                            if ks.contains(key@) {
                                let j = choose|j: int|
                                    0 <= j < keys@.len() && keys@[j]@ == key@;
                            }
                        },
                        SupplyV::Fungible(_) => {},
                    }
                }
                Ok(false)
            },
            Err(_) => Ok(false),
        }
    }

    /// Puts a bucket onto the worktop, merging with what is already staged
    /// for its resource.
    pub fn worktop_put(&mut self, bucket: Bucket) -> (r: Result<(), ProcessError>)
        requires
            old(self).wf(),
            bucket.wf(),
        ensures
            final(self).wf(),
            ({
                let a = bucket@.resource_address;
                if !old(self)@.worktop.contains_key(a) {
                    r == Ok::<(), ProcessError>(()) && final(self)@ == (ProcessV {
                        worktop: old(self)@.worktop.insert(a, bucket@),
                        ..old(self)@
                    })
                } else {
                    match spec_put(old(self)@.worktop[a], bucket@) {
                        Ok(nv) => r == Ok::<(), ProcessError>(()) && final(self)@ == (ProcessV {
                            worktop: old(self)@.worktop.insert(a, nv),
                            ..old(self)@
                        }),
                        Err(e) => r == Err::<(), ProcessError>(
                            ProcessError::ResourceFailure(e),
                        ) && final(self)@ == old(self)@,
                    }
                }
            }),
    {
        let address = bucket.resource_address();
        match self.worktop.remove_entry(&address) {
            Some((k, mut staged)) => {
                proof {
                    let pre = old(self).worktop.entry_seq();
                    let i = choose|i: int|
                        0 <= i < pre.len() && pre[i] == (k, staged)
                            && self.worktop.entry_seq() == pre.remove(i);
                    assert(pre[i].1.wf());
                    lemma_bucket_values_wf_after_remove(pre, i);
                }
                let outcome = staged.put(bucket);
                self.worktop.insert(k, staged);
                proof {
                    let a = bucket@.resource_address;
                    assert(old(self)@.worktop.remove(a).insert(a, staged@) =~= old(
                        self,
                    )@.worktop.insert(a, staged@));
                    assert(old(self)@.worktop.insert(a, old(self)@.worktop[a]) =~= old(
                        self,
                    )@.worktop);
                }
                match outcome {
                    Ok(_) => Ok(()),
                    Err(e) => Err(ProcessError::ResourceFailure(e)),
                }
            },
            None => {
                self.worktop.insert(address, bucket);
                Ok(())
            },
        }
    }

    /// Takes an amount of a resource from the worktop into a fresh bucket.
    pub fn worktop_take(&mut self, resource_address: &Address, amount: Decimal, new_bid: Bid)
        -> (r: Result<(), ProcessError>)
        requires
            old(self).wf(),
        ensures
            final(self).wf(),
            !old(self)@.worktop.contains_key(resource_address@) ==> r == Err::<
                (),
                ProcessError,
            >(ProcessError::WorktopResourceMissing) && final(self)@ == old(self)@,
            old(self)@.worktop.contains_key(resource_address@) && old(self)@.created().contains(
                new_bid,
            ) ==> r == Err::<(), ProcessError>(ProcessError::BucketIdInUse) && final(self)@
                == old(self)@,
            old(self)@.worktop.contains_key(resource_address@) && !old(self)@.created().contains(new_bid) ==> match spec_take(
                old(self)@.worktop[resource_address@],
                amount@,
            ) {
                Ok(pair) => r == Ok::<(), ProcessError>(()) && final(self)@ == (ProcessV {
                    buckets: old(self)@.buckets.insert(new_bid, pair.1),
                    worktop: old(self)@.worktop.insert(resource_address@, pair.0),
                    ..old(self)@
                }),
                Err(e) => r == Err::<(), ProcessError>(ProcessError::ResourceFailure(e))
                    && final(self)@ == old(self)@,
            },
    {
        if !self.worktop.contains_key(resource_address) {
            return Err(ProcessError::WorktopResourceMissing);
        }
        if self.bid_created(new_bid) {
            return Err(ProcessError::BucketIdInUse);
        }
        match self.worktop.remove_entry(resource_address) {
            Some((k, mut staged)) => {
                proof {
                    let pre = old(self).worktop.entry_seq();
                    let i = choose|i: int|
                        0 <= i < pre.len() && pre[i] == (k, staged)
                            && self.worktop.entry_seq() == pre.remove(i);
                    assert(pre[i].1.wf());
                    lemma_bucket_values_wf_after_remove(pre, i);
                }
                let outcome = staged.take(amount);
                self.worktop.insert(k, staged);
                proof {
                    let a = resource_address@;
                    assert(old(self)@.worktop.remove(a).insert(a, staged@) =~= old(
                        self,
                    )@.worktop.insert(a, staged@));
                    assert(old(self)@.worktop.insert(a, old(self)@.worktop[a]) =~= old(
                        self,
                    )@.worktop);
                }
                match outcome {
                    Ok(taken) => {
                        self.buckets.insert(new_bid, taken);
                        Ok(())
                    },
                    Err(e) => Err(ProcessError::ResourceFailure(e)),
                }
            },
            None => vstd::pervasive::unreached(),
        }
    }

    /// Takes exactly the given non-fungible keys of a resource from the
    /// worktop into a fresh bucket.
    pub fn worktop_take_non_fungibles(
        &mut self,
        resource_address: &Address,
        keys: &Vec<NonFungibleKey>,
        new_bid: Bid,
    ) -> (r: Result<(), ProcessError>)
        requires
            old(self).wf(),
        ensures
            final(self).wf(),
            !old(self)@.worktop.contains_key(resource_address@) ==> r == Err::<
                (),
                ProcessError,
            >(ProcessError::WorktopResourceMissing) && final(self)@ == old(self)@,
            old(self)@.worktop.contains_key(resource_address@) && old(self)@.created().contains(
                new_bid,
            ) ==> r == Err::<(), ProcessError>(ProcessError::BucketIdInUse) && final(self)@
                == old(self)@,
            old(self)@.worktop.contains_key(resource_address@) && !old(
                self,
            )@.created().contains(new_bid) ==> ({
                let kv = keys@.map(|i: int, k: NonFungibleKey| k@);
                match old(self)@.worktop[resource_address@].contents {
                    SupplyV::NonFungible(ks) => {
                        if kv.no_duplicates() && (forall|i: int|
                            0 <= i < kv.len() ==> ks.contains(#[trigger] kv[i])) {
                            r == Ok::<(), ProcessError>(()) && final(self)@ == (ProcessV {
                                buckets: old(self)@.buckets.insert(
                                    new_bid,
                                    BucketV {
                                        resource_address: old(self)@.worktop[
                                        resource_address@].resource_address,
                                        resource_type: old(self)@.worktop[
                                        resource_address@].resource_type,
                                        contents: SupplyV::NonFungible(kv.to_set()),
                                    },
                                ),
                                worktop: old(self)@.worktop.insert(
                                    resource_address@,
                                    BucketV {
                                        contents: SupplyV::NonFungible(
                                            ks.difference(kv.to_set()),
                                        ),
                                        ..old(self)@.worktop[resource_address@]
                                    },
                                ),
                                ..old(self)@
                            })
                        } else {
                            r == Err::<(), ProcessError>(
                                ProcessError::ResourceFailure(
                                    BucketError::NonFungibleNotFound,
                                ),
                            ) && final(self)@ == old(self)@
                        }
                    },
                    SupplyV::Fungible(_) => r == Err::<(), ProcessError>(
                        ProcessError::ResourceFailure(BucketError::UnsupportedOperation),
                    ) && final(self)@ == old(self)@,
                }
            }),
    {
        if !self.worktop.contains_key(resource_address) {
            return Err(ProcessError::WorktopResourceMissing);
        }
        if self.bid_created(new_bid) {
            return Err(ProcessError::BucketIdInUse);
        }
        match self.worktop.remove_entry(resource_address) {
            Some((k, mut staged)) => {
                proof {
                    let pre = old(self).worktop.entry_seq();
                    let i = choose|i: int|
                        0 <= i < pre.len() && pre[i] == (k, staged)
                            && self.worktop.entry_seq() == pre.remove(i);
                    assert(pre[i].1.wf());
                    lemma_bucket_values_wf_after_remove(pre, i);
                }
                let outcome = staged.take_non_fungibles(keys);
                self.worktop.insert(k, staged);
                proof {
                    let a = resource_address@;
                    assert(old(self)@.worktop.remove(a).insert(a, staged@) =~= old(
                        self,
                    )@.worktop.insert(a, staged@));
                    assert(old(self)@.worktop.insert(a, old(self)@.worktop[a]) =~= old(
                        self,
                    )@.worktop);
                }
                match outcome {
                    Ok(taken) => {
                        self.buckets.insert(new_bid, taken);
                        Ok(())
                    },
                    Err(e) => Err(ProcessError::ResourceFailure(e)),
                }
            },
            None => vstd::pervasive::unreached(),
        }
    }

    /// Drains the whole staged bucket of a resource into a fresh bucket.
    pub fn worktop_take_all(&mut self, resource_address: &Address, new_bid: Bid) -> (r: Result<
        (),
        ProcessError,
    >)
        requires
            old(self).wf(),
        ensures
            final(self).wf(),
            !old(self)@.worktop.contains_key(resource_address@) ==> r == Err::<
                (),
                ProcessError,
            >(ProcessError::WorktopResourceMissing) && final(self)@ == old(self)@,
            old(self)@.worktop.contains_key(resource_address@) && old(self)@.created().contains(
                new_bid,
            ) ==> r == Err::<(), ProcessError>(ProcessError::BucketIdInUse) && final(self)@
                == old(self)@,
            old(self)@.worktop.contains_key(resource_address@) && !old(self)@.created().contains(new_bid) ==> r == Ok::<(), ProcessError>(()) && final(self)@
                == (ProcessV {
                buckets: old(self)@.buckets.insert(
                    new_bid,
                    old(self)@.worktop[resource_address@],
                ),
                worktop: old(self)@.worktop.remove(resource_address@),
                ..old(self)@
            }),
    {
        if self.bid_created(new_bid) {
            if self.worktop.contains_key(resource_address) {
                return Err(ProcessError::BucketIdInUse);
            }
            return Err(ProcessError::WorktopResourceMissing);
        }
        match self.worktop.remove_entry(resource_address) {
            Some((taken_key, staged)) => {
                proof {
                    let pre = old(self).worktop.entry_seq();
                    let i = choose|i: int|
                        0 <= i < pre.len() && pre[i] == (taken_key, staged)
                            && self.worktop.entry_seq() == pre.remove(i);
                    assert(pre[i].1.wf());
                    lemma_bucket_values_wf_after_remove(pre, i);
                }
                self.buckets.insert(new_bid, staged);
                Ok(())
            },
            None => Err(ProcessError::WorktopResourceMissing),
        }
    }

    /// Checks that the worktop stages at least an amount of a resource.
    pub fn assert_worktop_contains(&self, resource_address: &Address, amount: Decimal) -> (r:
        Result<(), ProcessError>)
        requires
            self.wf(),
        ensures
            r == (if self@.worktop.contains_key(resource_address@) && self@.worktop[
            resource_address@].contents.amount() >= amount@ {
                Ok::<(), ProcessError>(())
            } else {
                Err::<(), ProcessError>(ProcessError::WorktopInsufficientBalance)
            }),
    {
        match self.worktop.get(resource_address) {
            Some(b) => {
                proof {
                    let j = choose|j: int|
                        0 <= j < self.worktop.entry_seq().len() && self.worktop.entry_seq()[
                        j].1 == *b;
                }
                if amount.le(&b.amount()) {
                    Ok(())
                } else {
                    Err(ProcessError::WorktopInsufficientBalance)
                }
            },
            None => Err(ProcessError::WorktopInsufficientBalance),
        }
    }

    /// The resources currently staged on the worktop, in insertion order.
    pub fn worktop_resources(&self) -> (r: Vec<Address>)
        requires
            self.wf(),
        ensures
            forall|i: int| 0 <= i < r@.len() ==> self@.worktop.contains_key(#[trigger] r@[i]@),
            forall|a: AddressV| self@.worktop.contains_key(a) ==> exists|i: int|
                0 <= i < r@.len() && r@[i]@ == a,
    {
        let mut out: Vec<Address> = Vec::new();
        let n = self.worktop.len();
        let mut i: usize = 0;
        while i < n
            invariant
                self.wf(),
                n == self.worktop.entry_seq().len(),
                i <= n,
                out@.len() == i,
                forall|j: int| 0 <= j < i ==> out@[j]@ == self.worktop.entry_seq()[j].0@,
                forall|j: int| 0 <= j < i ==> self@.worktop.contains_key(#[trigger] out@[j]@),
            decreases n - i,
        {
            let (k, _) = self.worktop.entry_at(i);
            out.push(k.key_dup());
            i = i + 1;
        }
        proof {
            assert forall|a: AddressV| self@.worktop.contains_key(a) implies exists|i2: int|
                0 <= i2 < out@.len() && out@[i2]@ == a by {
                self.worktop.lemma_domain(a);
                let j = choose|j: int|
                    0 <= j < self.worktop.entry_seq().len() && self.worktop.entry_seq()[j].0@
                        == a;
                assert(out@[j]@ == a);
            }
        }
        out
    }

    /// A vault built in this frame, not yet stored in any component state.
    pub fn insert_vault(&mut self, vid: Vid, vault: Vault) -> (r: Result<(), ProcessError>)
        requires
            old(self).wf(),
            vault.wf(),
        ensures
            final(self).wf(),
            old(self)@.unclaimed_vaults.contains_key(vid@) ==> r == Err::<(), ProcessError>(
                ProcessError::VaultIdInUse,
            ) && final(self)@ == old(self)@,
            !old(self)@.unclaimed_vaults.contains_key(vid@) ==> r == Ok::<(), ProcessError>(())
                && final(self)@ == (ProcessV {
                unclaimed_vaults: old(self)@.unclaimed_vaults.insert(vid@, vault@),
                ..old(self)@
            }),
    {
        if self.unclaimed_vaults.contains_key(&vid) {
            return Err(ProcessError::VaultIdInUse);
        }
        self.unclaimed_vaults.insert(vid, vault);
        Ok(())
    }

    /// Claims a vault for storage in a component's state.
    pub fn claim_vault(&mut self, vid: &Vid) -> (r: Result<Vault, ProcessError>)
        requires
            old(self).wf(),
        ensures
            final(self).wf(),
            match r {
                Ok(v) => old(self)@.unclaimed_vaults.contains_key(vid@) && v.wf() && v@ == old(
                    self,
                )@.unclaimed_vaults[vid@] && final(self)@ == (ProcessV {
                    unclaimed_vaults: old(self)@.unclaimed_vaults.remove(vid@),
                    ..old(self)@
                }),
                Err(e) => !old(self)@.unclaimed_vaults.contains_key(vid@) && e
                    == ProcessError::VaultNotFound && final(self)@ == old(self)@,
            },
    {
        match self.unclaimed_vaults.remove_entry(vid) {
            Some((taken_key, vault)) => {
                proof {
                    let pre = old(self).unclaimed_vaults.entry_seq();
                    let i = choose|i: int|
                        0 <= i < pre.len() && pre[i] == (taken_key, vault)
                            && self.unclaimed_vaults.entry_seq() == pre.remove(i);
                    assert(pre[i].1.wf());
                    crate::container::lemma_vault_values_wf_after_remove(pre, i);
                }
                Ok(vault)
            },
            None => Err(ProcessError::VaultNotFound),
        }
    }

    /// A clean frame exit: no active bucket remains, no vault is left
    /// unstored, and the worktop is empty.
    pub fn check_resource(&self) -> (r: Result<(), ProcessError>)
        requires
            self.wf(),
        ensures
            r == (if !(self@.buckets =~= Map::<Bid, BucketV>::empty()) {
                Err::<(), ProcessError>(ProcessError::DanglingBuckets)
            } else if !(self@.unclaimed_vaults =~= Map::<(Seq<u8>, u32), BucketV>::empty()) {
                Err::<(), ProcessError>(ProcessError::DanglingVaults)
            } else if !(self@.worktop =~= Map::<AddressV, BucketV>::empty()) {
                Err::<(), ProcessError>(ProcessError::WorktopNotEmpty)
            } else {
                Ok::<(), ProcessError>(())
            }),
    {
        if !self.buckets.is_empty() {
            return Err(ProcessError::DanglingBuckets);
        }
        if !self.unclaimed_vaults.is_empty() {
            return Err(ProcessError::DanglingVaults);
        }
        if !self.worktop.is_empty() {
            return Err(ProcessError::WorktopNotEmpty);
        }
        Ok(())
    }
}

/// The values of an entry sequence stay well-formed when one entry leaves.
pub proof fn lemma_bucket_values_wf_after_remove<K: MapKey>(pre: Seq<(K, Bucket)>, i: int)
    requires
        0 <= i < pre.len(),
        forall|a: int| 0 <= a < pre.len() ==> (#[trigger] pre[a].1).wf(),
    ensures
        forall|a: int| 0 <= a < pre.remove(i).len() ==> (#[trigger] pre.remove(i)[a].1).wf(),
{
    assert forall|a: int| 0 <= a < pre.remove(i).len() implies (#[trigger] pre.remove(
        i,
    )[a].1).wf() by {
        if a < i {
            assert(pre.remove(i)[a] == pre[a]);
        } else {
            assert(pre.remove(i)[a] == pre[a + 1]);
        }
    }
}

/// Law: at a clean frame exit, every bucket ever created in the frame is in
/// a terminal state: moved to another frame, stored in a vault, or burned.
pub proof fn lemma_clean_exit_buckets_terminal(p: ProcessV)
    requires
        p.inv(),
        p.buckets =~= Map::<Bid, BucketV>::empty(),
    ensures
        forall|b: Bid|
            p.created().contains(b) ==> #[trigger] p.consumed[b] == BucketState::Moved
                || p.consumed[b] == BucketState::Stored || p.consumed[b] == BucketState::Burned,
{
    assert forall|b: Bid| p.created().contains(b) implies #[trigger] p.consumed[b]
        == BucketState::Moved || p.consumed[b] == BucketState::Stored || p.consumed[b]
        == BucketState::Burned by {
        assert(p.consumed.contains_key(b));
        assert(p.consumed[b] != BucketState::Active);
    }
}

} // verus!
