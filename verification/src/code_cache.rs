//! A bounded cache of parsed guest modules.
//!
//! Parsing guest code is costly, so the track keeps the parsed form of each
//! package's code in a least-recently-used cache.  The parsed module itself
//! is opaque: running it belongs to the host VM, an external collaborator.

use vstd::prelude::*;

use std::collections::hash_map::RandomState;
use std::num::NonZeroUsize;

use crate::assoc::MapKey;
use crate::types::Address;

verus! {

#[verifier::external_type_specification]
#[verifier::external_body]
pub struct ExWasmModule(wasmi::Module);

#[verifier::external_type_specification]
#[verifier::external_body]
pub struct ExWasmEngine(wasmi::Engine);

#[verifier::external_type_specification]
#[verifier::external_body]
#[verifier::reject_recursive_types(K)]
#[verifier::reject_recursive_types(V)]
#[verifier::reject_recursive_types(S)]
pub struct ExLruCache<K, V, S>(lru::LruCache<K, V, S>);

pub assume_specification[ <wasmi::Module as Clone>::clone ](m: &wasmi::Module) -> wasmi::Module;

/// Whether a byte string parses and validates as a guest module under the
/// engine's default configuration.  Stated only by name: the outcome depends
/// on the code bytes alone.
pub uninterp spec fn wasm_parses(code: Seq<u8>) -> bool;

/// Relies on wasmi::Engine::default: a fresh engine to parse against.
#[verifier::external_body]
fn engine_new() -> wasmi::Engine {
    wasmi::Engine::default()
}

/// Relies on wasmi::Module::new: parses and validates guest code, and fails
/// exactly on code that is not a well-formed module; the outcome depends on
/// the code bytes alone, since every engine here carries the default
/// configuration.
#[verifier::external_body]
fn parse_wasm(engine: &wasmi::Engine, code: &Vec<u8>) -> (r: Option<wasmi::Module>)
    ensures
        r is Some <==> wasm_parses(code@),
{
    wasmi::Module::new(engine, code.as_slice()).ok()
}

/// Relies on lru::LruCache::with_hasher: an empty cache holding at most
/// `capacity` entries.
#[verifier::external_body]
fn lru_new(capacity: usize) -> lru::LruCache<Address, wasmi::Module, RandomState>
    requires
        capacity > 0,
{
    lru::LruCache::with_hasher(NonZeroUsize::new(capacity).unwrap(), RandomState::new())
}

/// Relies on lru::LruCache::get: the entry under the key, if one is cached.
#[verifier::external_body]
fn lru_get(
    cache: &mut lru::LruCache<Address, wasmi::Module, RandomState>,
    key: &Address,
) -> Option<wasmi::Module> {
    cache.get(key).cloned()
}

/// Relies on lru::LruCache::put: stores the entry, evicting the least
/// recently used one when the cache is full.
#[verifier::external_body]
fn lru_put(
    cache: &mut lru::LruCache<Address, wasmi::Module, RandomState>,
    key: Address,
    module: wasmi::Module,
) {
    cache.put(key, module);
}

/// A bounded cache from package address to parsed module.
pub struct CodeCache {
    engine: wasmi::Engine,
    cache: lru::LruCache<Address, wasmi::Module, RandomState>,
}

impl CodeCache {
    /// An empty cache holding at most `capacity` parsed modules.
    pub fn new(capacity: usize) -> CodeCache
        requires
            capacity > 0,
    {
        CodeCache { engine: engine_new(), cache: lru_new(capacity) }
    }

    /// The parsed form of `code`, from the cache when the address was seen
    /// before, freshly parsed and cached otherwise.  Code that parses always
    /// yields a module; code that does not parse yields nothing, unless an
    /// earlier load already cached a module under the same address.
    pub fn load(&mut self, address: &Address, code: &Vec<u8>) -> (r: Option<wasmi::Module>)
        ensures
            wasm_parses(code@) ==> r is Some,
    {
        match lru_get(&mut self.cache, address) {
            Some(module) => Some(module),
            None => {
                match parse_wasm(&self.engine, code) {
                    Some(module) => {
                        lru_put(&mut self.cache, address.key_dup(), module.clone());
                        Some(module)
                    },
                    None => None,
                }
            },
        }
    }
}

} // verus!
