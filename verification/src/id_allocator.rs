//! Deterministic identifier allocation for a transaction.
//!
//! A single mutable cursor over a half-open range of 32-bit counters.  Every
//! minted identifier consumes one counter slot, so the sequence of identifiers
//! handed out is a pure function of the starting range and the number of
//! allocations made so far.

use vstd::prelude::*;

use crate::bytes::{copy_range, u128_of_le, u32_le_bytes, u32_to_le};
use crate::digest::{sha256_of, sha256_twice};
use crate::types::{Address, AddressV, H256};

verus! {

/// The bytes an identifier is derived from: the transaction hash, then the
/// counter slot in little-endian.
pub open spec fn derivation_input(tx_hash: Seq<u8>, counter: u32) -> Seq<u8> {
    tx_hash + u32_le_bytes(counter)
}

/// The double hash every derived identifier is cut from.
pub open spec fn derivation_hash(tx_hash: Seq<u8>, counter: u32) -> Seq<u8> {
    sha256_of(sha256_of(derivation_input(tx_hash, counter)))
}

/// The 26-byte address body derived from a transaction hash and a counter.
pub open spec fn derived_body(tx_hash: Seq<u8>, counter: u32) -> Seq<u8> {
    derivation_hash(tx_hash, counter).skip(6)
}

/// The UUID derived from a transaction hash and a counter.
pub open spec fn derived_uuid(tx_hash: Seq<u8>, counter: u32) -> u128 {
    u128_of_le(derivation_hash(tx_hash, counter).skip(16))
}

/// The counter pool is partitioned between system, transaction-level and
/// application allocations.
#[derive(Debug, Clone, PartialEq, Eq, Structural)]
pub enum IdSpace {
    System,
    Transaction,
    Application,
}

/// An error from the identifier allocator.
#[derive(Debug, Clone, PartialEq, Eq, Structural)]
pub enum IdAllocatorError {
    OutOfID,
}

/// An ID allocator defines how identities are generated.
pub struct IdAllocator {
    start: u32,
    end: u32,
}

impl IdAllocator {
    /// The next counter value to be handed out.
    pub closed spec fn cursor(&self) -> u32 {
        self.start
    }

    /// One past the last counter value this allocator may hand out.
    pub closed spec fn limit(&self) -> u32 {
        self.end
    }

    /// How many counter slots are still available.
    pub open spec fn remaining(&self) -> int {
        self.limit() - self.cursor()
    }

    pub closed spec fn wf(&self) -> bool {
        self.start <= self.end
    }

    /// Creates an ID allocator for the given partition of the counter pool.
    pub fn new(kind: IdSpace) -> (r: Self)
        ensures
            r.wf(),
            kind == IdSpace::System ==> r.cursor() == 0 && r.limit() == 512,
            kind == IdSpace::Transaction ==> r.cursor() == 512 && r.limit() == 1024,
            kind == IdSpace::Application ==> r.cursor() == 1024 && r.limit() == u32::MAX,
    {
        let (start, end): (u32, u32) = match kind {
            IdSpace::System => (0, 512),
            IdSpace::Transaction => (512, 1024),
            IdSpace::Application => (1024, u32::MAX),
        };
        IdAllocator { start, end }
    }

    /// The next counter value, without consuming it.
    pub fn peek(&self) -> (r: u32)
        ensures
            r == self.cursor(),
    {
        self.start
    }

    /// Consumes and returns the next counter slot, if one is left.
    pub fn next(&mut self) -> (r: Result<u32, IdAllocatorError>)
        requires
            old(self).wf(),
        ensures
            final(self).wf(),
            final(self).limit() == old(self).limit(),
            old(self).remaining() > 0 ==> r == Ok::<u32, IdAllocatorError>(old(self).cursor())
                && final(self).cursor() == old(self).cursor() + 1,
            old(self).remaining() == 0 ==> r == Err::<u32, IdAllocatorError>(
                IdAllocatorError::OutOfID,
            ) && final(self).cursor() == old(self).cursor(),
    {
        if self.start < self.end {
            let id = self.start;
            self.start = self.start + 1;
            Ok(id)
        } else {
            Err(IdAllocatorError::OutOfID)
        }
    }

    /// The double hash for the next slot, cut to its low 26 bytes.
    fn next_body(&mut self, transaction_hash: &H256) -> (r: Result<Vec<u8>, IdAllocatorError>)
        requires
            old(self).wf(),
            transaction_hash.wf(),
        ensures
            final(self).wf(),
            final(self).limit() == old(self).limit(),
            old(self).remaining() > 0 ==> (r matches Ok(b) && b@ == derived_body(
                transaction_hash@,
                old(self).cursor(),
            ) && b@.len() == 26 && final(self).cursor() == old(self).cursor() + 1),
            old(self).remaining() == 0 ==> r == Err::<Vec<u8>, IdAllocatorError>(
                IdAllocatorError::OutOfID,
            ) && final(self).cursor() == old(self).cursor(),
    {
        let counter = match self.next() {
            Ok(c) => c,
            Err(e) => {
                return Err(e);
            },
        };
        let mut data = transaction_hash.to_vec();
        let mut tail = u32_to_le(counter);
        data.append(&mut tail);
        let hash = sha256_twice(&data);
        Ok(copy_range(hash.as_slice(), 6, 32))
    }

    /// Creates a new package address.
    pub fn new_package_address(&mut self, transaction_hash: &H256) -> (r: Result<
        Address,
        IdAllocatorError,
    >)
        requires
            old(self).wf(),
            transaction_hash.wf(),
        ensures
            final(self).wf(),
            final(self).limit() == old(self).limit(),
            old(self).remaining() > 0 ==> (r matches Ok(a) && a@ == AddressV::Package(
                derived_body(transaction_hash@, old(self).cursor()),
            ) && a.wf() && final(self).cursor() == old(self).cursor() + 1),
            old(self).remaining() == 0 ==> r == Err::<Address, IdAllocatorError>(
                IdAllocatorError::OutOfID,
            ) && final(self).cursor() == old(self).cursor(),
    {
        match self.next_body(transaction_hash) {
            Ok(body) => Ok(Address::Package(body)),
            Err(e) => Err(e),
        }
    }

    /// Creates a new component address.
    pub fn new_component_address(&mut self, transaction_hash: &H256) -> (r: Result<
        Address,
        IdAllocatorError,
    >)
        requires
            old(self).wf(),
            transaction_hash.wf(),
        ensures
            final(self).wf(),
            final(self).limit() == old(self).limit(),
            old(self).remaining() > 0 ==> (r matches Ok(a) && a@ == AddressV::Component(
                derived_body(transaction_hash@, old(self).cursor()),
            ) && a.wf() && final(self).cursor() == old(self).cursor() + 1),
            old(self).remaining() == 0 ==> r == Err::<Address, IdAllocatorError>(
                IdAllocatorError::OutOfID,
            ) && final(self).cursor() == old(self).cursor(),
    {
        match self.next_body(transaction_hash) {
            Ok(body) => Ok(Address::Component(body)),
            Err(e) => Err(e),
        }
    }

    /// Creates a new resource definition address.
    pub fn new_resource_address(&mut self, transaction_hash: &H256) -> (r: Result<
        Address,
        IdAllocatorError,
    >)
        requires
            old(self).wf(),
            transaction_hash.wf(),
        ensures
            final(self).wf(),
            final(self).limit() == old(self).limit(),
            old(self).remaining() > 0 ==> (r matches Ok(a) && a@ == AddressV::ResourceDef(
                derived_body(transaction_hash@, old(self).cursor()),
            ) && a.wf() && final(self).cursor() == old(self).cursor() + 1),
            old(self).remaining() == 0 ==> r == Err::<Address, IdAllocatorError>(
                IdAllocatorError::OutOfID,
            ) && final(self).cursor() == old(self).cursor(),
    {
        match self.next_body(transaction_hash) {
            Ok(body) => Ok(Address::ResourceDef(body)),
            Err(e) => Err(e),
        }
    }

    /// Creates a new UUID.
    pub fn new_uuid(&mut self, transaction_hash: &H256) -> (r: Result<u128, IdAllocatorError>)
        requires
            old(self).wf(),
            transaction_hash.wf(),
        ensures
            final(self).wf(),
            final(self).limit() == old(self).limit(),
            old(self).remaining() > 0 ==> r == Ok::<u128, IdAllocatorError>(
                derived_uuid(transaction_hash@, old(self).cursor()),
            ) && final(self).cursor() == old(self).cursor() + 1,
            old(self).remaining() == 0 ==> r == Err::<u128, IdAllocatorError>(
                IdAllocatorError::OutOfID,
            ) && final(self).cursor() == old(self).cursor(),
    {
        let counter = match self.next() {
            Ok(c) => c,
            Err(e) => {
                return Err(e);
            },
        };
        let mut data = transaction_hash.to_vec();
        let mut tail = u32_to_le(counter);
        data.append(&mut tail);
        let hash = sha256_twice(&data);
        let low = copy_range(hash.as_slice(), 16, 32);
        Ok(crate::bytes::u128_from_le(&low))
    }

    /// Creates a new bucket ID.
    pub fn new_bid(&mut self) -> (r: Result<crate::types::Bid, IdAllocatorError>)
        requires
            old(self).wf(),
        ensures
            final(self).wf(),
            final(self).limit() == old(self).limit(),
            old(self).remaining() > 0 ==> r == Ok::<crate::types::Bid, IdAllocatorError>(
                crate::types::Bid(old(self).cursor()),
            ) && final(self).cursor() == old(self).cursor() + 1,
            old(self).remaining() == 0 ==> r == Err::<crate::types::Bid, IdAllocatorError>(
                IdAllocatorError::OutOfID,
            ) && final(self).cursor() == old(self).cursor(),
    {
        match self.next() {
            Ok(c) => Ok(crate::types::Bid(c)),
            Err(e) => Err(e),
        }
    }

    /// Creates a new proof ID.
    pub fn new_rid(&mut self) -> (r: Result<crate::types::Rid, IdAllocatorError>)
        requires
            old(self).wf(),
        ensures
            final(self).wf(),
            final(self).limit() == old(self).limit(),
            old(self).remaining() > 0 ==> r == Ok::<crate::types::Rid, IdAllocatorError>(
                crate::types::Rid(old(self).cursor()),
            ) && final(self).cursor() == old(self).cursor() + 1,
            old(self).remaining() == 0 ==> r == Err::<crate::types::Rid, IdAllocatorError>(
                IdAllocatorError::OutOfID,
            ) && final(self).cursor() == old(self).cursor(),
    {
        match self.next() {
            Ok(c) => Ok(crate::types::Rid(c)),
            Err(e) => Err(e),
        }
    }

    /// Creates a new vault ID.
    pub fn new_vid(&mut self, transaction_hash: &H256) -> (r: Result<
        crate::types::Vid,
        IdAllocatorError,
    >)
        requires
            old(self).wf(),
            transaction_hash.wf(),
        ensures
            final(self).wf(),
            final(self).limit() == old(self).limit(),
            old(self).remaining() > 0 ==> (r matches Ok(v) && v@ == (transaction_hash@, old(
                self,
            ).cursor()) && final(self).cursor() == old(self).cursor() + 1),
            old(self).remaining() == 0 ==> r == Err::<crate::types::Vid, IdAllocatorError>(
                IdAllocatorError::OutOfID,
            ) && final(self).cursor() == old(self).cursor(),
    {
        match self.next() {
            Ok(c) => Ok(crate::types::Vid(transaction_hash.clone(), c)),
            Err(e) => Err(e),
        }
    }

    /// Creates a new lazy map ID.
    pub fn new_mid(&mut self, transaction_hash: &H256) -> (r: Result<
        crate::types::Mid,
        IdAllocatorError,
    >)
        requires
            old(self).wf(),
            transaction_hash.wf(),
        ensures
            final(self).wf(),
            final(self).limit() == old(self).limit(),
            old(self).remaining() > 0 ==> (r matches Ok(m) && m@ == (transaction_hash@, old(
                self,
            ).cursor()) && final(self).cursor() == old(self).cursor() + 1),
            old(self).remaining() == 0 ==> r == Err::<crate::types::Mid, IdAllocatorError>(
                IdAllocatorError::OutOfID,
            ) && final(self).cursor() == old(self).cursor(),
    {
        match self.next() {
            Ok(c) => Ok(crate::types::Mid(transaction_hash.clone(), c)),
            Err(e) => Err(e),
        }
    }
}

/// Law: identifier derivation is deterministic.  What an allocation yields is
/// a pure function of the transaction hash and the counter slot consumed: no
/// other state enters the derivation.
pub proof fn lemma_derivation_deterministic(
    tx1: Seq<u8>,
    k1: u32,
    tx2: Seq<u8>,
    k2: u32,
)
    requires
        tx1 == tx2,
        k1 == k2,
    ensures
        derived_body(tx1, k1) == derived_body(tx2, k2),
        derived_uuid(tx1, k1) == derived_uuid(tx2, k2),
{
}

} // verus!
