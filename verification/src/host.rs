//! The guest-host boundary: numbered operations dispatched in one switch.
//!
//! A guest call arrives as a tagged request; the engine validates it against
//! the frame's tables, performs it on the frame and the track, and answers
//! with a tagged response.  Any validation failure is an error, and the
//! transaction carrying it is then abandoned.

use vstd::prelude::*;

use crate::container::{spec_put, spec_take, Bucket, BucketV};
use crate::decimal::Decimal;
use crate::id_allocator::derived_uuid;
use crate::process::{Process, ProcessError, ProcessV};
use crate::resource_def::{ResourceType, Supply, SupplyV};
use crate::substate::SubstateStore;
use crate::track::{Track, TrackV};
use crate::types::{Address, Bid, LogLevel, Rid, H256};

verus! {

/// A request from the guest.
pub enum HostCall {
    CreateEmptyBucket { resource_address: Address },
    PutIntoBucket { bid: Bid, other: Bid },
    TakeFromBucket { bid: Bid, amount: Decimal },
    GetBucketAmount { bid: Bid },
    GetBucketResourceAddress { bid: Bid },
    CreateProof { bid: Bid },
    DropProof { rid: Rid },
    GetTransactionHash,
    GenerateUuid,
    EmitLog { level: LogLevel, message: String },
}

/// The engine's answer.
pub enum HostResponse {
    Bid(Bid),
    Amount(Decimal),
    ResourceAddress(Address),
    Rid(Rid),
    Hash(H256),
    Uuid(u128),
    Unit,
}

/// An error at the boundary.
#[derive(Debug, Clone, PartialEq, Eq, Structural)]
pub enum HostError {
    ResourceDefNotFound,
    Frame(ProcessError),
}

/// Services one host call: validates the request against the frame, performs
/// it, and answers.  Identifier allocation draws on the track's counter, so
/// a successful creation advances it.
pub fn host_call<S: SubstateStore>(
    process: &mut Process,
    track: &mut Track<S>,
    call: HostCall,
) -> (r: Result<HostResponse, HostError>)
    requires
        old(process).wf(),
        old(track).inv(),
        old(track).view().next_id < u32::MAX,
    ensures
        final(process).wf(),
        final(track).inv(),
        final(track).ledger_view() == old(track).ledger_view(),
        ({
            let p = old(process)@;
            let t = old(track).view();
            match call {
                HostCall::CreateEmptyBucket { resource_address } => {
                    if !t.resource_defs.contains_key(resource_address@) {
                        r == Err::<HostResponse, HostError>(HostError::ResourceDefNotFound)
                            && final(process)@ == p && final(track).view() == t
                    } else if p.created().contains(Bid(t.next_id)) {
                        r == Err::<HostResponse, HostError>(
                            HostError::Frame(ProcessError::BucketIdInUse),
                        ) && final(process)@ == p && final(track).view() == t
                    } else {
                        (r matches Ok(HostResponse::Bid(b)) && b == Bid(t.next_id) && final(process)@ == (ProcessV {
                            buckets: p.buckets.insert(
                                Bid(t.next_id),
                                BucketV {
                                    resource_address: resource_address@,
                                    resource_type: t.resource_defs[
                                    resource_address@].resource_type,
                                    contents: (match t.resource_defs[
                                    resource_address@].resource_type {
                                        ResourceType::Fungible { .. } => SupplyV::Fungible(0),
                                        ResourceType::NonFungible => SupplyV::NonFungible(
                                            Set::empty(),
                                        ),
                                    }),
                                },
                            ),
                            ..p
                        }) && final(track).view() == (TrackV { next_id: (t.next_id + 1) as u32, ..t }))
                    }
                },
                HostCall::PutIntoBucket { bid, other } => {
                    final(track).view() == t && (if other == bid || !p.buckets.contains_key(
                        other,
                    ) {
                        r is Err && final(process)@ == p
                    } else if !p.buckets.contains_key(bid) {
                        r == Err::<HostResponse, HostError>(
                            HostError::Frame(ProcessError::BucketNotFound),
                        ) && final(process)@ == (ProcessV {
                            buckets: p.buckets.remove(other),
                            consumed: p.consumed.insert(other, crate::process::BucketState::Moved),
                            ..p
                        })
                    } else {
                        match spec_put(p.buckets[bid], p.buckets[other]) {
                            Ok(nv) => r == Ok::<HostResponse, HostError>(HostResponse::Unit)
                                && final(process)@ == (ProcessV {
                                buckets: p.buckets.remove(other).insert(bid, nv),
                                consumed: p.consumed.insert(
                                    other,
                                    crate::process::BucketState::Moved,
                                ),
                                ..p
                            }),
                            Err(e) => r == Err::<HostResponse, HostError>(
                                HostError::Frame(ProcessError::ResourceFailure(e)),
                            ) && final(process)@ == (ProcessV {
                                buckets: p.buckets.remove(other),
                                consumed: p.consumed.insert(
                                    other,
                                    crate::process::BucketState::Moved,
                                ),
                                ..p
                            }),
                        }
                    })
                },
                HostCall::TakeFromBucket { bid, amount } => {
                    if !p.buckets.contains_key(bid) {
                        r == Err::<HostResponse, HostError>(
                            HostError::Frame(ProcessError::BucketNotFound),
                        ) && final(process)@ == p && final(track).view() == t
                    } else if p.created().contains(Bid(t.next_id)) {
                        r == Err::<HostResponse, HostError>(
                            HostError::Frame(ProcessError::BucketIdInUse),
                        ) && final(process)@ == p && final(track).view() == t
                    } else {
                        match spec_take(p.buckets[bid], amount@) {
                            Ok(pair) => (r matches Ok(HostResponse::Bid(b)) && b == Bid(
                                t.next_id,
                            ) && final(process)@ == (ProcessV {
                                buckets: p.buckets.insert(bid, pair.0).insert(
                                    Bid(t.next_id),
                                    pair.1,
                                ),
                                ..p
                            }) && final(track).view() == (TrackV { next_id: (t.next_id + 1) as u32, ..t })),
                            Err(e) => r == Err::<HostResponse, HostError>(
                                HostError::Frame(ProcessError::ResourceFailure(e)),
                            ) && final(process)@ == p && final(track).view() == (TrackV {
                                next_id: (t.next_id + 1) as u32,
                                ..t
                            }),
                        }
                    }
                },
                HostCall::GetBucketAmount { bid } => {
                    final(process)@ == p && final(track).view() == t && (
                    if p.buckets.contains_key(bid) {
                        r matches Ok(HostResponse::Amount(a)) && a@ == p.buckets[
                        bid].contents.amount()
                    } else {
                        r == Err::<HostResponse, HostError>(
                            HostError::Frame(ProcessError::BucketNotFound),
                        )
                    })
                },
                HostCall::GetBucketResourceAddress { bid } => {
                    final(process)@ == p && final(track).view() == t && (
                    if p.buckets.contains_key(bid) {
                        r matches Ok(HostResponse::ResourceAddress(a)) && a@ == p.buckets[
                        bid].resource_address
                    } else {
                        r == Err::<HostResponse, HostError>(
                            HostError::Frame(ProcessError::BucketNotFound),
                        )
                    })
                },
                HostCall::CreateProof { bid } => {
                    if !p.buckets.contains_key(bid) {
                        r == Err::<HostResponse, HostError>(
                            HostError::Frame(ProcessError::BucketNotFound),
                        ) && final(process)@ == p && final(track).view() == t
                    } else if p.proofs.contains_key(Rid(t.next_id)) {
                        r == Err::<HostResponse, HostError>(
                            HostError::Frame(ProcessError::ProofIdInUse),
                        ) && final(process)@ == p && final(track).view() == t
                    } else {
                        (r matches Ok(HostResponse::Rid(rid)) && rid == Rid(t.next_id)
                            && final(process)@ == (ProcessV {
                            proofs: p.proofs.insert(Rid(t.next_id), p.buckets[bid]),
                            ..p
                        }) && final(track).view() == (TrackV { next_id: (t.next_id + 1) as u32, ..t }))
                    }
                },
                HostCall::DropProof { rid } => {
                    final(track).view() == t && (if p.proofs.contains_key(rid) {
                        r == Ok::<HostResponse, HostError>(HostResponse::Unit) && final(process)@ == (ProcessV { proofs: p.proofs.remove(rid), ..p })
                    } else {
                        r == Err::<HostResponse, HostError>(
                            HostError::Frame(ProcessError::ProofNotFound),
                        ) && final(process)@ == p
                    })
                },
                HostCall::GetTransactionHash => {
                    r matches Ok(HostResponse::Hash(h)) && h@ == t.transaction_hash && final(process)@ == p && final(track).view() == t
                },
                HostCall::GenerateUuid => {
                    r == Ok::<HostResponse, HostError>(
                        HostResponse::Uuid(derived_uuid(t.transaction_hash, t.next_id)),
                    ) && final(process)@ == p && final(track).view() == (TrackV {
                        next_id: (t.next_id + 1) as u32,
                        ..t
                    })
                },
                HostCall::EmitLog { level, message } => {
                    r == Ok::<HostResponse, HostError>(HostResponse::Unit) && final(process)@
                        == p && final(track).view() == (TrackV {
                        logs: t.logs.push((level, message)),
                        ..t
                    })
                },
            }
        }),
{
    match call {
        HostCall::CreateEmptyBucket { resource_address } => {
            let def = match track.get_resource_def(&resource_address) {
                Some(d) => d,
                None => {
                    return Err(HostError::ResourceDefNotFound);
                },
            };
            proof {
                def.lemma_wf();
            }
            if process.bid_created(Bid(track.peek_next_id())) {
                return Err(HostError::Frame(ProcessError::BucketIdInUse));
            }
            let resource_type = def.resource_type();
            let supply = match resource_type {
                ResourceType::Fungible { .. } => Supply::Fungible { amount: Decimal::zero() },
                ResourceType::NonFungible => Supply::NonFungible {
                    keys: crate::assoc::AssocSet::new(),
                },
            };
            let bid = track.new_bid();
            let bucket = Bucket::new(resource_address, resource_type, supply);
            match process.insert_bucket(bid, bucket) {
                Ok(_) => Ok(HostResponse::Bid(bid)),
                Err(e) => Err(HostError::Frame(e)),
            }
        },
        HostCall::PutIntoBucket { bid, other } => {
            if other.0 == bid.0 {
                return Err(HostError::Frame(ProcessError::BucketNotFound));
            }
            let moved = match process.take_bucket(other, crate::process::BucketState::Moved) {
                Ok(b) => b,
                Err(e) => {
                    return Err(HostError::Frame(e));
                },
            };
            proof {
                assert(old(process)@.buckets.remove(other).contains_key(bid) == old(
                    process,
                )@.buckets.contains_key(bid));
            }
            match process.put_into_bucket(bid, moved) {
                Ok(_) => Ok(HostResponse::Unit),
                Err(e) => Err(HostError::Frame(e)),
            }
        },
        HostCall::TakeFromBucket { bid, amount } => {
            if !process.bucket_exists(bid) {
                return Err(HostError::Frame(ProcessError::BucketNotFound));
            }
            if process.bid_created(Bid(track.peek_next_id())) {
                return Err(HostError::Frame(ProcessError::BucketIdInUse));
            }
            let new_bid = track.new_bid();
            match process.take_from_bucket(bid, amount, new_bid) {
                Ok(_) => Ok(HostResponse::Bid(new_bid)),
                Err(e) => Err(HostError::Frame(e)),
            }
        },
        HostCall::GetBucketAmount { bid } => {
            match process.bucket_amount(bid) {
                Ok(a) => Ok(HostResponse::Amount(a)),
                Err(e) => Err(HostError::Frame(e)),
            }
        },
        HostCall::GetBucketResourceAddress { bid } => {
            match process.bucket_resource_address(bid) {
                Ok(a) => Ok(HostResponse::ResourceAddress(a)),
                Err(e) => Err(HostError::Frame(e)),
            }
        },
        HostCall::CreateProof { bid } => {
            if !process.bucket_exists(bid) {
                return Err(HostError::Frame(ProcessError::BucketNotFound));
            }
            if process.proof_exists(Rid(track.peek_next_id())) {
                return Err(HostError::Frame(ProcessError::ProofIdInUse));
            }
            let rid = track.new_rid();
            match process.create_proof(bid, rid) {
                Ok(_) => Ok(HostResponse::Rid(rid)),
                Err(e) => Err(HostError::Frame(e)),
            }
        },
        HostCall::DropProof { rid } => {
            match process.drop_proof(rid) {
                Ok(_) => Ok(HostResponse::Unit),
                Err(e) => Err(HostError::Frame(e)),
            }
        },
        HostCall::GetTransactionHash => Ok(HostResponse::Hash(track.transaction_hash())),
        HostCall::GenerateUuid => Ok(HostResponse::Uuid(track.new_uuid())),
        HostCall::EmitLog { level, message } => {
            track.add_log(level, message);
            Ok(HostResponse::Unit)
        },
    }
}

} // verus!
