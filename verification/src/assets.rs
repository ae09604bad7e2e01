//! Handles and per-type asset storage.
//!
//! A `Handle<T>` is a type-tagged, copyable identifier for an asset of kind
//! `T`. It carries no data: a handle may exist and circulate long before --
//! or forever without -- its payload being materialized in an `Assets<T>`
//! table. `Assets<T>` is the authoritative per-kind storage mapping an
//! identifier to its payload once it has been ingested; each identifier is
//! bound at most once, and only the ingest step writes it.

use crate::ids::{id_low, IdGen};
use core::marker::PhantomData;
use std::collections::HashMap;
use vstd::prelude::*;

verus! {

broadcast use vstd::std_specs::hash::group_hash_axioms;

/// A type-tagged asset identifier. Two handles denote the same asset
/// exactly when their identifiers are equal; the kind tag exists only at
/// the type level and carries no data.
#[derive(Debug)]
pub struct Handle<T> {
    pub id: u128,
    pub marker: PhantomData<T>,
}

impl<T> Clone for Handle<T> {
    /// An O(1) copy; the clone carries the same identifier and no data.
    fn clone(&self) -> (h: Self)
        ensures
            h.id == self.id,
    {
        Handle { id: self.id, marker: PhantomData }
    }
}

impl<T> Handle<T> {
    /// Reconstructs the handle for a known identifier, so that unpacked
    /// sub-assets get handles consistent with what ingest will insert.
    pub fn from_id(id: u128) -> (h: Handle<T>)
        ensures
            h.id == id,
    {
        Handle { id, marker: PhantomData }
    }

    /// Mints a handle with a fresh identifier drawn from `ids`.
    pub fn new(ids: &mut IdGen) -> (h: Handle<T>)
        requires
            old(ids).spec_count() < u64::MAX,
        ensures
            id_low(h.id) == old(ids).spec_count(),
            final(ids).spec_count() == old(ids).spec_count() + 1,
    {
        Handle { id: ids.mint(), marker: PhantomData }
    }

    /// An O(1) copy of the handle; no asset data is duplicated.
    pub fn duplicate(&self) -> (h: Handle<T>)
        ensures
            h.id == self.id,
    {
        Handle { id: self.id, marker: PhantomData }
    }
}

/// Per-kind asset storage: the process-wide table from identifier to
/// materialized payload. Mutated only on the simulation thread, inside the
/// ingest step, so it needs no locking.
pub struct Assets<T> {
    storage: HashMap<u128, T>,
    ids: IdGen,
}

impl<T> Assets<T> {
    /// The table as a map from identifier to payload. A map binds each
    /// identifier at most once: there is never more than one record per
    /// asset.
    pub closed spec fn view(&self) -> Map<u128, T> {
        self.storage@
    }

    pub closed spec fn spec_id_count(&self) -> u64 {
        self.ids.spec_count()
    }

    pub fn new() -> (a: Assets<T>)
        ensures
            a@ == Map::<u128, T>::empty(),
            a.spec_id_count() == 0,
    {
        Assets { storage: HashMap::new(), ids: IdGen::new() }
    }

    /// Stores `asset` under a freshly minted handle and returns the handle.
    pub fn add(&mut self, asset: T) -> (h: Handle<T>)
        requires
            old(self).spec_id_count() < u64::MAX,
        ensures
            final(self)@ == old(self)@.insert(h.id, asset),
            id_low(h.id) == old(self).spec_id_count(),
            final(self).spec_id_count() == old(self).spec_id_count() + 1,
    {
        let handle: Handle<T> = Handle::new(&mut self.ids);
        let id = handle.id;
        self.storage.insert(id, asset);
        handle
    }

    /// The single authoritative write of an identifier's payload.
    pub fn insert(&mut self, handle: &Handle<T>, asset: T)
        ensures
            final(self)@ == old(self)@.insert(handle.id, asset),
            final(self).spec_id_count() == old(self).spec_id_count(),
    {
        self.insert_by_id(handle.id, asset)
    }

    /// As `insert`, for call sites that carry the bare identifier.
    pub fn insert_by_id(&mut self, id: u128, asset: T)
        ensures
            final(self)@ == old(self)@.insert(id, asset),
            final(self).spec_id_count() == old(self).spec_id_count(),
    {
        self.storage.insert(id, asset);
    }

    /// Looks a payload up by handle; `None` while the asset is pending.
    pub fn get(&self, handle: &Handle<T>) -> (r: Option<&T>)
        ensures
            match r {
                Some(v) => self@.contains_key(handle.id) && *v == self@[handle.id],
                None => !self@.contains_key(handle.id),
            },
    {
        self.storage.get(&handle.id)
    }

    /// Whether a payload has been materialized for `id`.
    pub fn contains_id(&self, id: u128) -> (r: bool)
        ensures
            r == self@.contains_key(id),
    {
        self.storage.contains_key(&id)
    }

    pub fn len(&self) -> (n: usize)
        ensures
            n == self@.len(),
    {
        self.storage.len()
    }
}

/// One interleaved mesh vertex. The coordinates are IEEE-754 bit patterns
/// in `u32` fields: the loader moves them, the renderer interprets them.
#[derive(Clone, Copy, Debug, PartialEq, Eq)]
pub struct Vertex {
    pub position: [u32; 3],
    pub normal: [u32; 3],
    pub uv: [u32; 2],
}

/// A mesh payload: interleaved vertices plus an index buffer.
#[derive(Clone, Debug)]
pub struct MeshData {
    pub vertices: Vec<Vertex>,
    pub indices: Vec<u32>,
}

} // verus!
