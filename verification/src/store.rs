//! The stable B-tree that holds the encoded records.
//!
//! The tree is `ic_stable_structures::StableBTreeMap`, keyed by text and
//! holding raw bytes. Verus cannot look inside it, so this module names what
//! the tree holds ([`stored_records`]) and wraps each of its methods in a
//! function whose contract is stated over that name. Those contracts are
//! trusted: they say what the tree's source shows, and nothing here proves
//! them.

use ic_stable_structures::memory_manager::{MemoryId, MemoryManager, VirtualMemory};
use ic_stable_structures::{DefaultMemoryImpl, StableBTreeMap};
use vstd::prelude::*;
use vstd::utf8::encode_utf8;

verus! {

/// A stable B-tree map from text to bytes, living in one virtual memory of
/// the default memory implementation. Verus does not look inside: what the
/// map holds is spoken of through [`stored_records`] alone.
#[verifier::external_body]
pub struct RecordStore {
    map: StableBTreeMap<String, Vec<u8>, VirtualMemory<DefaultMemoryImpl>>,
}

/// The key-value pairs that a store holds.
pub uninterp spec fn stored_records(store: RecordStore) -> Map<Seq<char>, Seq<u8>>;

/// `records` has exactly `n` keys.
pub open spec fn holds_exactly(records: Map<Seq<char>, Seq<u8>>, n: nat) -> bool {
    records.dom().finite() && records.dom().len() == n
}

/// The longest key or value, in bytes, that the map can hold: it writes each
/// length into four bytes.
pub open spec fn max_entry_bytes() -> nat {
    0xffff_ffff
}

/// Calls `MemoryManager::init` on the default memory, takes the virtual memory
/// with the given id from it and hands that to `StableBTreeMap::init`, which
/// loads the map found there or creates an empty one. `MemoryId::new` refuses
/// the id 255. What the map holds depends on what the memory held, so all
/// that is claimed is that it holds finitely many entries: the map counts
/// them in a `u64`. Where the memory carries the mark of a memory manager or
/// of a map in a layout that this version cannot read, the call does not
/// return.
#[verifier::external_body]
pub(crate) fn store_open(memory_id: u8) -> (store: RecordStore)
    requires
        memory_id < 255,
    ensures
        stored_records(store).dom().finite(),
{
    let manager = MemoryManager::init(DefaultMemoryImpl::default());
    RecordStore { map: StableBTreeMap::init(manager.get(MemoryId::new(memory_id))) }
}

/// Calls `StableBTreeMap::len`: the number of entries, which the map keeps in
/// a `u64` counter.
#[verifier::external_body]
pub(crate) fn store_len(store: &RecordStore) -> (n: u64)
    ensures
        holds_exactly(stored_records(*store), n as nat),
{
    store.map.len()
}

/// Calls `StableBTreeMap::contains_key`: whether an entry with this key
/// exists.
#[verifier::external_body]
pub(crate) fn store_contains_key(store: &RecordStore, key: &str) -> (present: bool)
    ensures
        present == stored_records(*store).contains_key(key@),
{
    store.map.contains_key(&key.to_string())
}

/// Calls `StableBTreeMap::get`: a copy of the value stored under this key, if
/// there is one.
#[verifier::external_body]
pub(crate) fn store_get(store: &RecordStore, key: &str) -> (found: Option<Vec<u8>>)
    ensures
        found.is_some() == stored_records(*store).contains_key(key@),
        found matches Some(value) ==> value@ == stored_records(*store)[key@],
{
    store.map.get(&key.to_string())
}

/// Calls `StableBTreeMap::insert`: the value is stored under the key,
/// replacing any value that was there, which is returned; no other entry
/// changes. Key and value must each be short enough for their length to be
/// written into four bytes.
#[verifier::external_body]
pub(crate) fn store_insert(store: &mut RecordStore, key: &str, value: Vec<u8>) -> (previous: Option<
    Vec<u8>,
>)
    requires
        encode_utf8(key@).len() <= max_entry_bytes(),
        value@.len() <= max_entry_bytes(),
    ensures
        stored_records(*final(store)) == stored_records(*old(store)).insert(key@, value@),
        previous.is_some() == stored_records(*old(store)).contains_key(key@),
        previous matches Some(bytes) ==> bytes@ == stored_records(*old(store))[key@],
{
    store.map.insert(key.to_string(), value)
}

} // verus!
