//! The raw byte-keyed store that the host provides, and an in-memory one.
use cosmwasm_std::MemoryStorage;
use vstd::prelude::*;

verus! {

/// A byte-keyed store, for reading.
pub trait KVStoreRead {
    /// What the store holds.
    spec fn contents(&self) -> Map<Seq<u8>, Seq<u8>>;

    fn get(&self, key: &[u8]) -> (r: Option<Vec<u8>>)
        ensures
            match r {
                Some(v) => self.contents().contains_key(key@) && self.contents()[key@] == v@,
                None => !self.contents().contains_key(key@),
            },
    ;
}

/// A byte-keyed store that can be written. Writes are visible to the next
/// read; nothing is staged.
pub trait KVStore: KVStoreRead {
    /// Stores `value` at `key`. A host store may refuse empty values.
    fn set(&mut self, key: &[u8], value: &[u8])
        requires
            value@.len() > 0,
        ensures
            final(self).contents() == old(self).contents().insert(key@, value@),
    ;

    fn remove(&mut self, key: &[u8])
        ensures
            final(self).contents() == old(self).contents().remove(key@),
    ;
}

/// A store that holds nothing.
pub open spec fn empty_store() -> Map<Seq<u8>, Seq<u8>> {
    Map::empty()
}

#[verifier::external_type_specification]
#[verifier::external_body]
pub struct ExMemoryStorage(MemoryStorage);

/// What a `MemoryStorage` holds.
pub uninterp spec fn storage_contents(s: MemoryStorage) -> Map<Seq<u8>, Seq<u8>>;

/// Relies on MemoryStorage::new: a store that holds nothing.
#[verifier::external_body]
fn memory_storage_new() -> (r: MemoryStorage)
    ensures
        storage_contents(r) == empty_store(),
{
    MemoryStorage::new()
}

/// Relies on MemoryStorage's Storage::get: a copy of the value at `key`.
#[verifier::external_body]
fn memory_storage_get(s: &MemoryStorage, key: &[u8]) -> (r: Option<Vec<u8>>)
    ensures
        match r {
            Some(v) => storage_contents(*s).contains_key(key@) && storage_contents(*s)[key@] == v@,
            None => !storage_contents(*s).contains_key(key@),
        },
{
    cosmwasm_std::Storage::get(s, key)
}

/// Relies on MemoryStorage's Storage::set: inserts `value` at `key`, and
/// panics on an empty value.
#[verifier::external_body]
fn memory_storage_set(s: &mut MemoryStorage, key: &[u8], value: &[u8])
    requires
        value@.len() > 0,
    ensures
        storage_contents(*final(s)) == storage_contents(*old(s)).insert(key@, value@),
{
    cosmwasm_std::Storage::set(s, key, value)
}

/// Relies on MemoryStorage's Storage::remove: removes `key`, if present.
#[verifier::external_body]
fn memory_storage_remove(s: &mut MemoryStorage, key: &[u8])
    ensures
        storage_contents(*final(s)) == storage_contents(*old(s)).remove(key@),
{
    cosmwasm_std::Storage::remove(s, key)
}

/// A store held in memory, for a host that keeps state in memory and for tests.
pub struct MemStore {
    pub inner: MemoryStorage,
}

impl MemStore {
    pub fn new() -> (r: MemStore)
        ensures
            r.contents() == empty_store(),
    {
        MemStore { inner: memory_storage_new() }
    }
}

impl KVStoreRead for MemStore {
    open spec fn contents(&self) -> Map<Seq<u8>, Seq<u8>> {
        storage_contents(self.inner)
    }

    fn get(&self, key: &[u8]) -> (r: Option<Vec<u8>>) {
        memory_storage_get(&self.inner, key)
    }
}

impl KVStore for MemStore {
    fn set(&mut self, key: &[u8], value: &[u8]) {
        memory_storage_set(&mut self.inner, key, value)
    }

    fn remove(&mut self, key: &[u8]) {
        memory_storage_remove(&mut self.inner, key)
    }
}

} // verus!

verus! {

/// The contract's storage as the host hands it to a command that writes.
/// Verus does not see inside: its contents are `host_contents`.
#[verifier::external_body]
pub struct HostStore<'a> {
    pub storage: &'a mut dyn cosmwasm_std::Storage,
}

/// What the host's storage holds.
pub uninterp spec fn host_contents(s: HostStore) -> Map<Seq<u8>, Seq<u8>>;

/// Relies on cosmwasm_std::Storage::get: a copy of the value at `key`, if any.
#[verifier::external_body]
fn host_get(s: &HostStore, key: &[u8]) -> (r: Option<Vec<u8>>)
    ensures
        match r {
            Some(v) => host_contents(*s).contains_key(key@) && host_contents(*s)[key@] == v@,
            None => !host_contents(*s).contains_key(key@),
        },
{
    s.storage.get(key)
}

/// Relies on cosmwasm_std::Storage::set: stores `value` at `key`; empty
/// values are not supported.
#[verifier::external_body]
fn host_set(s: &mut HostStore, key: &[u8], value: &[u8])
    requires
        value@.len() > 0,
    ensures
        host_contents(*final(s)) == host_contents(*old(s)).insert(key@, value@),
{
    s.storage.set(key, value)
}

/// Relies on cosmwasm_std::Storage::remove: removes the entry at `key`.
#[verifier::external_body]
fn host_remove(s: &mut HostStore, key: &[u8])
    ensures
        host_contents(*final(s)) == host_contents(*old(s)).remove(key@),
{
    s.storage.remove(key)
}

impl<'a> KVStoreRead for HostStore<'a> {
    open spec fn contents(&self) -> Map<Seq<u8>, Seq<u8>> {
        host_contents(*self)
    }

    fn get(&self, key: &[u8]) -> (r: Option<Vec<u8>>) {
        host_get(self, key)
    }
}

impl<'a> KVStore for HostStore<'a> {
    fn set(&mut self, key: &[u8], value: &[u8]) {
        host_set(self, key, value)
    }

    fn remove(&mut self, key: &[u8]) {
        host_remove(self, key)
    }
}

/// The contract's storage as the host hands it to a query: read only.
#[verifier::external_body]
pub struct HostStoreRef<'a> {
    pub storage: &'a dyn cosmwasm_std::Storage,
}

/// What the host's storage holds, as a query sees it.
pub uninterp spec fn host_ref_contents(s: HostStoreRef) -> Map<Seq<u8>, Seq<u8>>;

/// Relies on cosmwasm_std::Storage::get: a copy of the value at `key`, if any.
#[verifier::external_body]
fn host_ref_get(s: &HostStoreRef, key: &[u8]) -> (r: Option<Vec<u8>>)
    ensures
        match r {
            Some(v) => host_ref_contents(*s).contains_key(key@) && host_ref_contents(*s)[key@] == v@,
            None => !host_ref_contents(*s).contains_key(key@),
        },
{
    s.storage.get(key)
}

impl<'a> KVStoreRead for HostStoreRef<'a> {
    open spec fn contents(&self) -> Map<Seq<u8>, Seq<u8>> {
        host_ref_contents(*self)
    }

    fn get(&self, key: &[u8]) -> (r: Option<Vec<u8>>) {
        host_ref_get(self, key)
    }
}

} // verus!
