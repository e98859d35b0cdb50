//! The grapheme pool: multi-byte grapheme clusters behind compact reusable handles.
use vstd::prelude::*;
use crate::error::TuiError;
use crate::pool::{
    alloc_result, decoded, decref_result, incref_result, lookup, refcount_of, IdPool, PoolView,
};

verus! {

/// The largest grapheme cluster a slot holds, in bytes.
pub const MAX_GRAPHEME_BYTES: usize = 128;

/// Grapheme handles carry a 7-bit generation.
pub const GRAPHEME_GENERATIONS: u32 = 128;

/// A grapheme handle: slot index in the low 16 bits, generation above.
pub type IdPayload = u32;

/// A well-formed grapheme pool model: slots take up to `MAX_GRAPHEME_BYTES` bytes and generations count
/// modulo `GRAPHEME_GENERATIONS`.
pub open spec fn is_grapheme_pool(v: PoolView) -> bool {
    v.wf() && v.capacity == MAX_GRAPHEME_BYTES && v.generations == GRAPHEME_GENERATIONS
}

/// Grapheme clusters stored by value behind generation-checked handles.
pub struct GraphemePool {
    pool: IdPool,
}

impl View for GraphemePool {
    type V = PoolView;

    closed spec fn view(&self) -> PoolView {
        self.pool@
    }
}

impl GraphemePool {
    pub closed spec fn wf(&self) -> bool {
        &&& self.pool.wf()
        &&& self@.capacity == MAX_GRAPHEME_BYTES
        &&& self@.generations == GRAPHEME_GENERATIONS
    }

    pub fn new() -> (r: GraphemePool)
        ensures
            r.wf(),
            is_grapheme_pool(r@),
            r@.slots.len() == 0,
            r@.free.len() == 0,
    {
        GraphemePool { pool: IdPool::new(MAX_GRAPHEME_BYTES, GRAPHEME_GENERATIONS) }
    }

    /// Stores a copy of `bytes` and returns its handle; fails with `Capacity` when the
    /// cluster is longer than a slot or no slot index is left.
    pub fn allocate(&mut self, bytes: &[u8]) -> (r: Result<IdPayload, TuiError>)
        requires
            old(self).wf(),
        ensures
            final(self).wf(),
            is_grapheme_pool(final(self)@),
            (final(self)@, r) == alloc_result(old(self)@, bytes@),
    {
        self.pool.allocate(bytes)
    }

    pub fn incref(&mut self, id: IdPayload) -> (r: Result<(), TuiError>)
        requires
            old(self).wf(),
        ensures
            final(self).wf(),
            is_grapheme_pool(final(self)@),
            (final(self)@, r) == incref_result(old(self)@, id),
    {
        self.pool.incref(id)
    }

    pub fn decref(&mut self, id: IdPayload) -> (r: Result<(), TuiError>)
        requires
            old(self).wf(),
        ensures
            final(self).wf(),
            is_grapheme_pool(final(self)@),
            (final(self)@, r) == decref_result(old(self)@, id),
    {
        self.pool.decref(id)
    }

    /// The cluster behind `id`, as text.
    pub fn get(&self, id: IdPayload) -> (r: Result<String, TuiError>)
        requires
            self.wf(),
        ensures
            is_grapheme_pool(self@),
            r is Ok <==> decoded(lookup(self@, id)) is Ok,
            r is Ok ==> decoded(lookup(self@, id)) == Ok::<Seq<char>, TuiError>(r->Ok_0@),
            r is Err ==> decoded(lookup(self@, id)) == Err::<Seq<char>, TuiError>(r->Err_0),
    {
        self.pool.get_text(id)
    }

    pub fn get_refcount(&self, id: IdPayload) -> (r: Result<u32, TuiError>)
        requires
            self.wf(),
        ensures
            is_grapheme_pool(self@),
            r == refcount_of(self@, id),
    {
        self.pool.get_refcount(id)
    }
}

impl Default for GraphemePool {
    fn default() -> (r: GraphemePool)
        ensures
            r.wf(),
            is_grapheme_pool(r@),
            r@.slots.len() == 0,
    {
        GraphemePool::new()
    }
}

} // verus!
