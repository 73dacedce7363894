//! Core of a deterministic execution engine for an asset-oriented ledger.
//!
//! Resources (fungible and non-fungible) exist only as linearly-owned
//! containers whose total quantity cannot be forged, duplicated, or silently
//! discarded during a transaction.  This crate provides the transactional
//! write-ahead buffer over a substate store, the resource primitives with
//! their conservation and authority rules, the deterministic identifier
//! allocator, and the per-frame container bookkeeping.

pub mod account;
pub mod assoc;
pub mod bytes;
pub mod code_cache;
pub mod codec;
pub mod container;
pub mod decimal;
pub mod digest;
pub mod hex_str;
pub mod host;
pub mod id_allocator;
pub mod instruction;
pub mod process;
pub mod resource;
pub mod resource_def;
pub mod resource_flags;
pub mod substate;
pub mod track;
pub mod types;
pub mod validated_transaction;
