//! Instruction dispatch for the transaction's outer loop.
//!
//! Worktop and proof instructions are performed here directly.  A call
//! instruction cannot run here — it needs the host VM — so it comes back as
//! an action for the surrounding loop to perform before dispatching the next
//! instruction.

use vstd::prelude::*;

use crate::process::{Process, ProcessError, ProcessV};
use crate::substate::SubstateStore;
use crate::track::{Track, TrackV};
use crate::types::{Address, Bid, Rid};
use crate::validated_transaction::ValidatedInstruction;

verus! {

/// What the surrounding loop must do next.
#[derive(Debug)]
pub enum InstructionAction {
    /// The instruction is fully performed.
    Done,
    /// Run the named function of a blueprint on the host VM.
    InvokeFunction {
        package_address: Address,
        blueprint_name: String,
        function: String,
        args: Vec<Vec<u8>>,
    },
    /// Run the named method of a component on the host VM.
    InvokeMethod { component_address: Address, method: String, args: Vec<Vec<u8>> },
    /// Drain the worktop and run the named method with everything staged.
    InvokeMethodWithAll { component_address: Address, method: String },
}

/// Performs one validated instruction against the frame and the track.
/// Worktop and proof instructions finish here; call instructions validate
/// nothing and come back as actions.
pub fn run_instruction<S: SubstateStore>(
    process: &mut Process,
    track: &mut Track<S>,
    instruction: ValidatedInstruction,
) -> (r: Result<InstructionAction, ProcessError>)
    requires
        old(process).wf(),
        old(track).inv(),
        old(track).view().next_id < u32::MAX,
    ensures
        final(process).wf(),
        final(track).inv(),
        final(track).ledger_view() == old(track).ledger_view(),
        ({
            let p = old(process)@;
            let t = old(track).view();
            match instruction {
                ValidatedInstruction::TakeFromWorktop { amount, resource_address } => {
                    if !p.worktop.contains_key(resource_address@) {
                        r == Err::<InstructionAction, ProcessError>(
                            ProcessError::WorktopResourceMissing,
                        ) && final(process)@ == p && final(track).view() == t
                    } else if p.created().contains(Bid(t.next_id)) {
                        r == Err::<InstructionAction, ProcessError>(
                            ProcessError::BucketIdInUse,
                        ) && final(process)@ == p && final(track).view() == t
                    } else {
                        final(track).view() == (TrackV {
                            next_id: (t.next_id + 1) as u32,
                            ..t
                        }) && (match crate::container::spec_take(
                            p.worktop[resource_address@],
                            amount@,
                        ) {
                            Ok(pair) => (r matches Ok(InstructionAction::Done) && final(process)@ == (ProcessV {
                                buckets: p.buckets.insert(Bid(t.next_id), pair.1),
                                worktop: p.worktop.insert(resource_address@, pair.0),
                                ..p
                            })),
                            Err(e) => r == Err::<InstructionAction, ProcessError>(
                                ProcessError::ResourceFailure(e),
                            ) && final(process)@ == p,
                        })
                    }
                },
                ValidatedInstruction::TakeAllFromWorktop { resource_address } => {
                    if !p.worktop.contains_key(resource_address@) {
                        r == Err::<InstructionAction, ProcessError>(
                            ProcessError::WorktopResourceMissing,
                        ) && final(process)@ == p && final(track).view() == t
                    } else if p.created().contains(Bid(t.next_id)) {
                        r == Err::<InstructionAction, ProcessError>(
                            ProcessError::BucketIdInUse,
                        ) && final(process)@ == p && final(track).view() == t
                    } else {
                        (r matches Ok(InstructionAction::Done) && final(process)@ == (ProcessV {
                            buckets: p.buckets.insert(
                                Bid(t.next_id),
                                p.worktop[resource_address@],
                            ),
                            worktop: p.worktop.remove(resource_address@),
                            ..p
                        }) && final(track).view() == (TrackV {
                            next_id: (t.next_id + 1) as u32,
                            ..t
                        }))
                    }
                },
                ValidatedInstruction::ReturnToWorktop { bid } => {
                    final(track).view() == t && (if !p.buckets.contains_key(bid) {
                        r == Err::<InstructionAction, ProcessError>(
                            ProcessError::BucketNotFound,
                        ) && final(process)@ == p
                    } else {
                        let moved = ProcessV {
                            buckets: p.buckets.remove(bid),
                            consumed: p.consumed.insert(
                                bid,
                                crate::process::BucketState::Moved,
                            ),
                            ..p
                        };
                        let a = p.buckets[bid].resource_address;
                        if !p.worktop.contains_key(a) {
                            (r matches Ok(InstructionAction::Done) && final(process)@ == (
                            ProcessV { worktop: moved.worktop.insert(a, p.buckets[bid]), ..moved }))
                        } else {
                            match crate::container::spec_put(p.worktop[a], p.buckets[bid]) {
                                Ok(nv) => (r matches Ok(InstructionAction::Done) && final(process)@ == (ProcessV { worktop: moved.worktop.insert(a, nv), ..moved })),
                                Err(e) => r == Err::<InstructionAction, ProcessError>(
                                    ProcessError::ResourceFailure(e),
                                ) && final(process)@ == moved,
                            }
                        }
                    })
                },
                ValidatedInstruction::AssertWorktopContains { amount, resource_address } => {
                    if p.worktop.contains_key(resource_address@) && p.worktop[
                    resource_address@].contents.amount() >= amount@ {
                        (r matches Ok(InstructionAction::Done)) && final(process)@ == p
                            && final(track).view() == t
                    } else {
                        r == Err::<InstructionAction, ProcessError>(
                            ProcessError::WorktopInsufficientBalance,
                        ) && final(process)@ == p && final(track).view() == t
                    }
                },
                ValidatedInstruction::CreateBucketRef { bid } => {
                    if !p.buckets.contains_key(bid) {
                        r == Err::<InstructionAction, ProcessError>(
                            ProcessError::BucketNotFound,
                        ) && final(process)@ == p && final(track).view() == t
                    } else if p.proofs.contains_key(Rid(t.next_id)) {
                        r == Err::<InstructionAction, ProcessError>(
                            ProcessError::ProofIdInUse,
                        ) && final(process)@ == p && final(track).view() == t
                    } else {
                        (r matches Ok(InstructionAction::Done) && final(process)@ == (ProcessV {
                            proofs: p.proofs.insert(Rid(t.next_id), p.buckets[bid]),
                            ..p
                        }) && final(track).view() == (TrackV {
                            next_id: (t.next_id + 1) as u32,
                            ..t
                        }))
                    }
                },
                ValidatedInstruction::CloneBucketRef { rid } => {
                    if !p.proofs.contains_key(rid) {
                        r == Err::<InstructionAction, ProcessError>(
                            ProcessError::ProofNotFound,
                        ) && final(process)@ == p && final(track).view() == t
                    } else if p.proofs.contains_key(Rid(t.next_id)) {
                        r == Err::<InstructionAction, ProcessError>(
                            ProcessError::ProofIdInUse,
                        ) && final(process)@ == p && final(track).view() == t
                    } else {
                        (r matches Ok(InstructionAction::Done) && final(process)@ == (ProcessV {
                            proofs: p.proofs.insert(Rid(t.next_id), p.proofs[rid]),
                            ..p
                        }) && final(track).view() == (TrackV {
                            next_id: (t.next_id + 1) as u32,
                            ..t
                        }))
                    }
                },
                ValidatedInstruction::DropBucketRef { rid } => {
                    final(track).view() == t && (if p.proofs.contains_key(rid) {
                        (r matches Ok(InstructionAction::Done) && final(process)@ == (ProcessV {
                            proofs: p.proofs.remove(rid),
                            ..p
                        }))
                    } else {
                        r == Err::<InstructionAction, ProcessError>(
                            ProcessError::ProofNotFound,
                        ) && final(process)@ == p
                    })
                },
                ValidatedInstruction::TakeNonFungiblesFromWorktop { keys, resource_address } => {
                    if !p.worktop.contains_key(resource_address@) {
                        r == Err::<InstructionAction, ProcessError>(
                            ProcessError::WorktopResourceMissing,
                        ) && final(process)@ == p && final(track).view() == t
                    } else if p.created().contains(Bid(t.next_id)) {
                        r == Err::<InstructionAction, ProcessError>(
                            ProcessError::BucketIdInUse,
                        ) && final(process)@ == p && final(track).view() == t
                    } else {
                        final(track).view() == (TrackV {
                            next_id: (t.next_id + 1) as u32,
                            ..t
                        }) && ({
                            let kv = keys@.map(
                                |i: int, k: crate::types::NonFungibleKey| k@,
                            );
                            match p.worktop[resource_address@].contents {
                                crate::resource_def::SupplyV::NonFungible(ks) => {
                                    if kv.no_duplicates() && (forall|i: int|
                                        0 <= i < kv.len() ==> ks.contains(#[trigger] kv[i])) {
                                        (r matches Ok(InstructionAction::Done) && final(process)@ == (ProcessV {
                                            buckets: p.buckets.insert(
                                                Bid(t.next_id),
                                                crate::container::BucketV {
                                                    resource_address: p.worktop[
                                                    resource_address@].resource_address,
                                                    resource_type: p.worktop[
                                                    resource_address@].resource_type,
                                                    contents:
                                                        crate::resource_def::SupplyV::NonFungible(
                                                        kv.to_set(),
                                                    ),
                                                },
                                            ),
                                            worktop: p.worktop.insert(
                                                resource_address@,
                                                crate::container::BucketV {
                                                    contents:
                                                        crate::resource_def::SupplyV::NonFungible(
                                                        ks.difference(kv.to_set()),
                                                    ),
                                                    ..p.worktop[resource_address@]
                                                },
                                            ),
                                            ..p
                                        }))
                                    } else {
                                        r == Err::<InstructionAction, ProcessError>(
                                            ProcessError::ResourceFailure(
                                                crate::container::BucketError::NonFungibleNotFound,
                                            ),
                                        ) && final(process)@ == p
                                    }
                                },
                                crate::resource_def::SupplyV::Fungible(_) => r == Err::<
                                    InstructionAction,
                                    ProcessError,
                                >(
                                    ProcessError::ResourceFailure(
                                        crate::container::BucketError::UnsupportedOperation,
                                    ),
                                ) && final(process)@ == p,
                            }
                        })
                    }
                },
                ValidatedInstruction::CallFunction { .. } => {
                    (r matches Ok(InstructionAction::InvokeFunction { .. })) && final(process)@ == p && final(track).view() == t
                },
                ValidatedInstruction::CallMethod { .. } => {
                    (r matches Ok(InstructionAction::InvokeMethod { .. })) && final(process)@
                        == p && final(track).view() == t
                },
                ValidatedInstruction::CallMethodWithAllResources { .. } => {
                    (r matches Ok(InstructionAction::InvokeMethodWithAll { .. })) && final(process)@ == p && final(track).view() == t
                },
            }
        }),
{
    match instruction {
        ValidatedInstruction::TakeFromWorktop { amount, resource_address } => {
            if !process.worktop_has(&resource_address) {
                return Err(ProcessError::WorktopResourceMissing);
            }
            if process.bid_created(Bid(track.peek_next_id())) {
                return Err(ProcessError::BucketIdInUse);
            }
            let new_bid = track.new_bid();
            match process.worktop_take(&resource_address, amount, new_bid) {
                Ok(_) => Ok(InstructionAction::Done),
                Err(e) => Err(e),
            }
        },
        ValidatedInstruction::TakeAllFromWorktop { resource_address } => {
            if !process.worktop_has(&resource_address) {
                return Err(ProcessError::WorktopResourceMissing);
            }
            if process.bid_created(Bid(track.peek_next_id())) {
                return Err(ProcessError::BucketIdInUse);
            }
            let new_bid = track.new_bid();
            match process.worktop_take_all(&resource_address, new_bid) {
                Ok(_) => Ok(InstructionAction::Done),
                Err(e) => Err(e),
            }
        },
        ValidatedInstruction::ReturnToWorktop { bid } => {
            let bucket = match process.take_bucket(bid, crate::process::BucketState::Moved) {
                Ok(b) => b,
                Err(e) => {
                    return Err(e);
                },
            };
            match process.worktop_put(bucket) {
                Ok(_) => Ok(InstructionAction::Done),
                Err(e) => Err(e),
            }
        },
        ValidatedInstruction::AssertWorktopContains { amount, resource_address } => {
            match process.assert_worktop_contains(&resource_address, amount) {
                Ok(_) => Ok(InstructionAction::Done),
                Err(e) => Err(e),
            }
        },
        ValidatedInstruction::CreateBucketRef { bid } => {
            if !process.bucket_exists(bid) {
                return Err(ProcessError::BucketNotFound);
            }
            if process.proof_exists(Rid(track.peek_next_id())) {
                return Err(ProcessError::ProofIdInUse);
            }
            let rid = track.new_rid();
            match process.create_proof(bid, rid) {
                Ok(_) => Ok(InstructionAction::Done),
                Err(e) => Err(e),
            }
        },
        ValidatedInstruction::CloneBucketRef { rid } => {
            if !process.proof_exists(rid) {
                return Err(ProcessError::ProofNotFound);
            }
            if process.proof_exists(Rid(track.peek_next_id())) {
                return Err(ProcessError::ProofIdInUse);
            }
            let new_rid = track.new_rid();
            match process.clone_proof(rid, new_rid) {
                Ok(_) => Ok(InstructionAction::Done),
                Err(e) => Err(e),
            }
        },
        ValidatedInstruction::DropBucketRef { rid } => {
            match process.drop_proof(rid) {
                Ok(_) => Ok(InstructionAction::Done),
                Err(e) => Err(e),
            }
        },
        ValidatedInstruction::TakeNonFungiblesFromWorktop { keys, resource_address } => {
            if !process.worktop_has(&resource_address) {
                return Err(ProcessError::WorktopResourceMissing);
            }
            if process.bid_created(Bid(track.peek_next_id())) {
                return Err(ProcessError::BucketIdInUse);
            }
            let new_bid = track.new_bid();
            match process.worktop_take_non_fungibles(&resource_address, &keys, new_bid) {
                Ok(_) => Ok(InstructionAction::Done),
                Err(e) => Err(e),
            }
        },
        ValidatedInstruction::CallFunction {
            package_address,
            blueprint_name,
            function,
            args,
        } => Ok(
            InstructionAction::InvokeFunction {
                package_address,
                blueprint_name,
                function,
                args,
            },
        ),
        ValidatedInstruction::CallMethod { component_address, method, args } => Ok(
            InstructionAction::InvokeMethod { component_address, method, args },
        ),
        ValidatedInstruction::CallMethodWithAllResources { component_address, method } => Ok(
            InstructionAction::InvokeMethodWithAll { component_address, method },
        ),
    }
}

} // verus!
