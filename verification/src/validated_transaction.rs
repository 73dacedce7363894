//! A transaction after static validation: its instruction list and signers.

use vstd::prelude::*;

use crate::decimal::Decimal;
use crate::types::{Address, Bid, EcdsaPublicKey, NonFungibleKey, Rid};

verus! {

/// One validated instruction.  Call arguments are carried as encoded blobs
/// of the canonical codec.
pub enum ValidatedInstruction {
    TakeFromWorktop { amount: Decimal, resource_address: Address },
    TakeAllFromWorktop { resource_address: Address },
    TakeNonFungiblesFromWorktop { keys: Vec<NonFungibleKey>, resource_address: Address },
    ReturnToWorktop { bid: Bid },
    AssertWorktopContains { amount: Decimal, resource_address: Address },
    CreateBucketRef { bid: Bid },
    CloneBucketRef { rid: Rid },
    DropBucketRef { rid: Rid },
    CallFunction {
        package_address: Address,
        blueprint_name: String,
        function: String,
        args: Vec<Vec<u8>>,
    },
    CallMethod { component_address: Address, method: String, args: Vec<Vec<u8>> },
    CallMethodWithAllResources { component_address: Address, method: String },
}

/// A validated transaction: instructions in order, and the signer keys.
pub struct ValidatedTransaction {
    pub instructions: Vec<ValidatedInstruction>,
    pub signers: Vec<EcdsaPublicKey>,
}

} // verus!
