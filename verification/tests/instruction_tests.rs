use radix_engine::container::Bucket;
use radix_engine::decimal::Decimal;
use radix_engine::instruction::{run_instruction, InstructionAction};
use radix_engine::process::{BucketState, ProcessError};
use radix_engine::resource_def::{ResourceType, Supply};
use radix_engine::substate::InMemorySubstateStore;
use radix_engine::track::Track;
use radix_engine::types::{radix_token, Bid, Rid, H256};
use radix_engine::validated_transaction::ValidatedInstruction;

fn xrd_bucket(amount: i128) -> Bucket {
    Bucket::new(
        radix_token(),
        ResourceType::Fungible { divisibility: 18 },
        Supply::Fungible { amount: Decimal(amount) },
    )
}

#[test]
fn worktop_instructions_stage_and_split() {
    let mut track = Track::new(InMemorySubstateStore::new(), H256::new(vec![1; 32]), Vec::new());
    let mut process = track.start_process(false);
    process.worktop_put(xrd_bucket(100)).unwrap();

    let r = run_instruction(&mut process, &mut track, ValidatedInstruction::TakeFromWorktop {
        amount: Decimal(30),
        resource_address: radix_token(),
    })
    .unwrap();
    assert!(matches!(r, InstructionAction::Done));
    let taken_bid = Bid(1024);
    let taken = process.take_bucket(taken_bid, BucketState::Moved).unwrap();
    assert!(taken.amount().equals(&Decimal(30)));

    run_instruction(&mut process, &mut track, ValidatedInstruction::AssertWorktopContains {
        amount: Decimal(70),
        resource_address: radix_token(),
    })
    .unwrap();
    let too_much = run_instruction(
        &mut process,
        &mut track,
        ValidatedInstruction::AssertWorktopContains {
            amount: Decimal(71),
            resource_address: radix_token(),
        },
    );
    assert_eq!(too_much.unwrap_err(), ProcessError::WorktopInsufficientBalance);
}

#[test]
fn proof_instructions_follow_the_signature_proof() {
    let mut track = Track::new(InMemorySubstateStore::new(), H256::new(vec![1; 32]), Vec::new());
    let mut process = track.start_process(false);

    let r = run_instruction(&mut process, &mut track, ValidatedInstruction::CloneBucketRef {
        rid: Rid(1),
    })
    .unwrap();
    assert!(matches!(r, InstructionAction::Done));
    run_instruction(&mut process, &mut track, ValidatedInstruction::DropBucketRef {
        rid: Rid(1024),
    })
    .unwrap();
    let gone = run_instruction(&mut process, &mut track, ValidatedInstruction::DropBucketRef {
        rid: Rid(1024),
    });
    assert_eq!(gone.unwrap_err(), ProcessError::ProofNotFound);
}

#[test]
fn call_instructions_come_back_as_actions() {
    let mut track = Track::new(InMemorySubstateStore::new(), H256::new(vec![1; 32]), Vec::new());
    let mut process = track.start_process(false);

    let r = run_instruction(
        &mut process,
        &mut track,
        ValidatedInstruction::CallMethodWithAllResources {
            component_address: radix_token(),
            method: String::from("deposit_batch"),
        },
    )
    .unwrap();
    match r {
        InstructionAction::InvokeMethodWithAll { method, .. } => {
            assert_eq!(method, "deposit_batch");
        },
        _ => panic!("expected a call action"),
    }
}
