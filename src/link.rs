//! The link pool: hyperlink URLs behind compact reusable handles.
use vstd::prelude::*;
use vstd::utf8::{encode_utf8, encode_utf8_decode_utf8, encode_utf8_valid_utf8};
use crate::error::TuiError;
use crate::pool::{
    alloc_result, decoded, decref_result, incref_result, lemma_alloc_round_trip, lookup,
    refcount_of, IdPool, PoolView,
};

verus! {

/// The longest URL a slot holds, in bytes.
pub const MAX_URL_LENGTH: usize = 512;

/// Link handles carry an 8-bit generation.
pub const LINK_GENERATIONS: u32 = 256;

/// A well-formed link pool model: slots take up to `MAX_URL_LENGTH` bytes and generations count
/// modulo `LINK_GENERATIONS`.
pub open spec fn is_link_pool(v: PoolView) -> bool {
    v.wf() && v.capacity == MAX_URL_LENGTH && v.generations == LINK_GENERATIONS
}

/// URLs stored by value behind generation-checked handles.
pub struct LinkPool {
    pool: IdPool,
}

impl View for LinkPool {
    type V = PoolView;

    closed spec fn view(&self) -> PoolView {
        self.pool@
    }
}

impl LinkPool {
    pub closed spec fn wf(&self) -> bool {
        &&& self.pool.wf()
        &&& self@.capacity == MAX_URL_LENGTH
        &&& self@.generations == LINK_GENERATIONS
    }

    pub fn new() -> (r: LinkPool)
        ensures
            r.wf(),
            is_link_pool(r@),
            r@.slots.len() == 0,
            r@.free.len() == 0,
    {
        LinkPool { pool: IdPool::new(MAX_URL_LENGTH, LINK_GENERATIONS) }
    }

    /// Stores the UTF-8 bytes of `url` and returns its handle; fails with `Capacity` when
    /// the URL is longer than a slot or no slot index is left.
    pub fn allocate(&mut self, url: &str) -> (r: Result<u32, TuiError>)
        requires
            old(self).wf(),
        ensures
            final(self).wf(),
            is_link_pool(final(self)@),
            (final(self)@, r) == alloc_result(old(self)@, encode_utf8(url@)),
    {
        self.pool.allocate(url.as_bytes())
    }

    pub fn incref(&mut self, id: u32) -> (r: Result<(), TuiError>)
        requires
            old(self).wf(),
        ensures
            final(self).wf(),
            is_link_pool(final(self)@),
            (final(self)@, r) == incref_result(old(self)@, id),
    {
        self.pool.incref(id)
    }

    pub fn decref(&mut self, id: u32) -> (r: Result<(), TuiError>)
        requires
            old(self).wf(),
        ensures
            final(self).wf(),
            is_link_pool(final(self)@),
            (final(self)@, r) == decref_result(old(self)@, id),
    {
        self.pool.decref(id)
    }

    /// The URL behind `id`.
    pub fn get(&self, id: u32) -> (r: Result<String, TuiError>)
        requires
            self.wf(),
        ensures
            is_link_pool(self@),
            r is Ok <==> decoded(lookup(self@, id)) is Ok,
            r is Ok ==> decoded(lookup(self@, id)) == Ok::<Seq<char>, TuiError>(r->Ok_0@),
            r is Err ==> decoded(lookup(self@, id)) == Err::<Seq<char>, TuiError>(r->Err_0),
    {
        self.pool.get_text(id)
    }

    pub fn get_refcount(&self, id: u32) -> (r: Result<u32, TuiError>)
        requires
            self.wf(),
        ensures
            is_link_pool(self@),
            r == refcount_of(self@, id),
    {
        self.pool.get_refcount(id)
    }
}

/// A URL stored in a link pool reads back unchanged through its handle.
pub proof fn lemma_link_round_trip(v: PoolView, url: Seq<char>)
    requires
        v.wf(),
    ensures
        alloc_result(v, encode_utf8(url)).1 is Ok ==> decoded(
            lookup(alloc_result(v, encode_utf8(url)).0, alloc_result(v, encode_utf8(url)).1->Ok_0),
        ) == Ok::<Seq<char>, TuiError>(url),
{
    lemma_alloc_round_trip(v, encode_utf8(url));
    encode_utf8_valid_utf8(url);
    encode_utf8_decode_utf8(url);
}

} // verus!
