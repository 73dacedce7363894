//! A resource description as a transaction builder hands it over.

use vstd::prelude::*;

use crate::decimal::Decimal;
use crate::types::Address;

verus! {

/// A resource created by a transaction: its metadata, the badge that may
/// mint it, and the initial supply, if any.
pub struct Resource {
    pub metadata: Vec<(String, String)>,
    pub minter: Option<Address>,
    pub supply: Option<Decimal>,
}

} // verus!
