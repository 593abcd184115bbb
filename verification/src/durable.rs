//! The durable map: an ordered map from a text key to a profile that
//! outlives the process. Profiles are kept as records in a stable B-tree;
//! this module encodes on the way in and decodes on the way out.
//!
//! A record that is not the encoding of a profile cannot be handed out, and
//! a profile whose record exceeds the size bound cannot be stored. Both are
//! faults of the storage, not answers, so `get` and `insert` leave them out
//! by their preconditions; `is_readable` and `UserProfile::fits` test for
//! them.

use crate::codec::{decode_record, fits, lemma_decode_inverts_encode, record_bytes};
use crate::profile::{ProfileView, UserProfile};
use crate::store::{
    max_entry_bytes, store_contains_key, store_get, store_insert, store_len, store_open,
    stored_records, RecordStore,
};
use vstd::prelude::*;
use vstd::utf8::encode_utf8;

verus! {

/// The profile that the records hold under `key`, if they hold one that can
/// be read.
pub open spec fn stored_profile(records: Map<Seq<char>, Seq<u8>>, key: Seq<char>) -> Option<
    ProfileView,
> {
    if records.contains_key(key) {
        decode_record(records[key])
    } else {
        None
    }
}

/// Whatever is stored under `key` is the record of a profile.
pub open spec fn readable(records: Map<Seq<char>, Seq<u8>>, key: Seq<char>) -> bool {
    records.contains_key(key) ==> decode_record(records[key]).is_some()
}

/// The view of an optional profile.
pub open spec fn profile_of(found: Option<UserProfile>) -> Option<ProfileView> {
    match found {
        Some(profile) => Some(profile@),
        None => None,
    }
}

/// The virtual memory in which the profiles are kept.
pub const PROFILE_MEMORY_ID: u8 = 0;

/// A durable map from text keys to profiles.
pub struct ProfileMap {
    store: RecordStore,
}

impl ProfileMap {
    /// The record stored under each key.
    pub closed spec fn records(&self) -> Map<Seq<char>, Seq<u8>> {
        stored_records(self.store)
    }

    /// The map holds finitely many records.
    pub open spec fn wf(&self) -> bool {
        self.records().dom().finite()
    }

    /// The number of keys.
    pub open spec fn count(&self) -> nat {
        self.records().dom().len()
    }

    /// Opens the map in the host's durable memory: what an earlier run
    /// stored there is found again, and a memory without a map gets an empty
    /// one. Open it once: two maps over one memory would overwrite each
    /// other.
    pub fn init() -> (map: ProfileMap)
        ensures
            map.wf(),
    {
        ProfileMap { store: store_open(PROFILE_MEMORY_ID) }
    }

    /// Whether a profile is stored under `key`.
    pub fn contains_key(&self, key: &str) -> (present: bool)
        ensures
            present == self.records().contains_key(key@),
    {
        store_contains_key(&self.store, key)
    }

    /// The number of stored profiles.
    pub fn len(&self) -> (n: u64)
        ensures
            self.wf(),
            n == self.count(),
    {
        store_len(&self.store)
    }

    /// Whether what is stored under `key`, if anything, can be read as a
    /// profile.
    pub fn is_readable(&self, key: &str) -> (ok: bool)
        ensures
            ok == readable(self.records(), key@),
    {
        match store_get(&self.store, key) {
            Some(bytes) => UserProfile::decode(bytes.as_slice()).is_some(),
            None => true,
        }
    }

    /// The profile stored under `key`, if there is one.
    pub fn get(&self, key: &str) -> (found: Option<UserProfile>)
        requires
            readable(self.records(), key@),
        ensures
            found.is_some() == self.records().contains_key(key@),
            profile_of(found) == stored_profile(self.records(), key@),
    {
        match store_get(&self.store, key) {
            Some(bytes) => UserProfile::decode(bytes.as_slice()),
            None => None,
        }
    }

    /// Stores `value` under `key`, in place of whatever was stored there,
    /// and returns the profile that was stored there before. No other key
    /// is touched.
    pub fn insert(&mut self, key: &str, value: &UserProfile) -> (previous: Option<UserProfile>)
        requires
            old(self).wf(),
            fits(value@),
            encode_utf8(key@).len() <= max_entry_bytes(),
            readable(old(self).records(), key@),
        ensures
            final(self).wf(),
            final(self).records() == old(self).records().insert(key@, record_bytes(value@)),
            stored_profile(final(self).records(), key@) == Some(value@),
            previous.is_some() == old(self).records().contains_key(key@),
            profile_of(previous) == stored_profile(old(self).records(), key@),
    {
        proof {
            lemma_decode_inverts_encode(value@);
        }
        let record = value.encode().unwrap();
        match store_insert(&mut self.store, key, record) {
            Some(bytes) => UserProfile::decode(bytes.as_slice()),
            None => None,
        }
    }
}

} // verus!
