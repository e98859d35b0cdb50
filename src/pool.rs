//! A generation-tagged slab of reference-counted byte payloads, addressed by packed
//! integer handles. The grapheme pool and the link pool are both built on it.
use vstd::prelude::*;
use vstd::slice::slice_to_vec;
use vstd::utf8::{decode_utf8, valid_utf8};
use vstd::arithmetic::div_mod::{lemma_fundamental_div_mod_converse, lemma_mod_self_0, lemma_small_mod};
use crate::error::TuiError;
use crate::text::string_from_utf8;

verus! {

/// Slot indices occupy the low 16 bits of a handle.
pub const SLOT_LIMIT: u32 = 65536;

/// Storage grows by this many slots at a time.
pub const SLOTS_PER_PAGE: u32 = 64;

/// A payload read back as text: the decoded characters, or `Encoding` when the bytes are
/// not UTF-8.
pub open spec fn decoded(l: Result<Seq<u8>, TuiError>) -> Result<Seq<char>, TuiError> {
    match l {
        Ok(b) => if valid_utf8(b) {
            Ok(decode_utf8(b))
        } else {
            Err(TuiError::Encoding)
        },
        Err(e) => Err(e),
    }
}

/// One slot as a mathematical value.
pub struct SlotView {
    pub bytes: Seq<u8>,
    pub refcount: u32,
    pub generation: u32,
}

/// A pool as a mathematical value: its slots, its free list (a stack, top last), the
/// largest payload a slot takes, and the number of distinct generations.
pub struct PoolView {
    pub slots: Seq<SlotView>,
    pub free: Seq<u32>,
    pub capacity: nat,
    pub generations: nat,
}

impl PoolView {
    pub open spec fn wf(self) -> bool {
        &&& self.slots.len() <= SLOT_LIMIT
        &&& 2 <= self.generations
        &&& self.generations * SLOT_LIMIT <= u32::MAX + 1
        &&& forall|i: int| 0 <= i < self.free.len() ==> self.free[i] < self.slots.len()
        &&& forall|i: int|
            0 <= i < self.slots.len() ==> #[trigger] self.slots[i].generation < self.generations
                && self.slots[i].bytes.len() <= self.capacity
    }
}

/// The slot index a handle names.
pub open spec fn handle_slot(h: u32) -> int {
    h as int % SLOT_LIMIT as int
}

/// The generation a handle names, in a pool with `generations` generations.
pub open spec fn handle_generation(h: u32, generations: nat) -> int {
    (h as int / SLOT_LIMIT as int) % generations as int
}

/// The handle for `slot` at `generation`.
pub open spec fn pack_handle(slot: int, generation: int) -> int {
    generation * SLOT_LIMIT + slot
}

/// A handle is valid while its slot exists and still carries its generation.
pub open spec fn valid_handle(v: PoolView, h: u32) -> bool {
    &&& 0 <= handle_slot(h) < v.slots.len()
    &&& v.slots[handle_slot(h)].generation == handle_generation(h, v.generations)
}

/// The pool after one page of fresh slots has been added, all pushed on the free list.
pub open spec fn grown(v: PoolView) -> PoolView {
    PoolView {
        slots: v.slots + Seq::new(
            SLOTS_PER_PAGE as nat,
            |i: int| SlotView { bytes: Seq::empty(), refcount: 0, generation: 0 },
        ),
        free: v.free + Seq::new(SLOTS_PER_PAGE as nat, |i: int| (v.slots.len() + i) as u32),
        ..v
    }
}

/// Allocation of payload `b`: the new pool and the handle, or the error.
pub open spec fn alloc_result(v: PoolView, b: Seq<u8>) -> (PoolView, Result<u32, TuiError>) {
    if b.len() > v.capacity {
        (v, Err(TuiError::Capacity))
    } else if v.free.len() == 0 && v.slots.len() + SLOTS_PER_PAGE > SLOT_LIMIT {
        (v, Err(TuiError::Capacity))
    } else {
        let g = if v.free.len() == 0 { grown(v) } else { v };
        let s = g.free.last() as int;
        let generation = (g.slots[s].generation + 1) % g.generations as int;
        (
            PoolView {
                slots: g.slots.update(
                    s,
                    SlotView { bytes: b, refcount: 0, generation: generation as u32 },
                ),
                free: g.free.drop_last(),
                ..g
            },
            Ok(pack_handle(s, generation) as u32),
        )
    }
}

/// Taking a reference through `h`: the refcount grows by one. A refcount that would
/// overflow is refused with `Capacity`, so a referenced slot never reads zero.
pub open spec fn incref_result(v: PoolView, h: u32) -> (PoolView, Result<(), TuiError>) {
    if !valid_handle(v, h) {
        (v, Err(TuiError::InvalidHandle))
    } else if v.slots[handle_slot(h)].refcount == u32::MAX {
        (v, Err(TuiError::Capacity))
    } else {
        let s = handle_slot(h);
        let slot = v.slots[s];
        (
            PoolView {
                slots: v.slots.update(s, SlotView { refcount: (slot.refcount + 1) as u32, ..slot }),
                ..v
            },
            Ok(()),
        )
    }
}

/// Dropping a reference through `h`: the refcount shrinks by one, and a slot whose
/// refcount reaches zero goes back on the free list with its bytes left in place.
pub open spec fn decref_result(v: PoolView, h: u32) -> (PoolView, Result<(), TuiError>) {
    if !valid_handle(v, h) || v.slots[handle_slot(h)].refcount == 0 {
        (v, Err(TuiError::InvalidHandle))
    } else {
        let s = handle_slot(h);
        let slot = v.slots[s];
        let rc = (slot.refcount - 1) as u32;
        (
            PoolView {
                slots: v.slots.update(s, SlotView { refcount: rc, ..slot }),
                free: if rc == 0 { v.free.push(s as u32) } else { v.free },
                ..v
            },
            Ok(()),
        )
    }
}

/// The payload behind `h`.
pub open spec fn lookup(v: PoolView, h: u32) -> Result<Seq<u8>, TuiError> {
    if valid_handle(v, h) {
        Ok(v.slots[handle_slot(h)].bytes)
    } else {
        Err(TuiError::InvalidHandle)
    }
}

/// The refcount behind `h`.
pub open spec fn refcount_of(v: PoolView, h: u32) -> Result<u32, TuiError> {
    if valid_handle(v, h) {
        Ok(v.slots[handle_slot(h)].refcount)
    } else {
        Err(TuiError::InvalidHandle)
    }
}

/// The handle for `slot` at `generation`: generation above the 16 slot bits.
fn pack_id(slot: u32, generation: u32) -> (r: u32)
    requires
        slot < SLOT_LIMIT,
        generation * SLOT_LIMIT + slot <= u32::MAX,
    ensures
        r == pack_handle(slot as int, generation as int),
{
    generation * SLOT_LIMIT + slot
}

/// The slot index and generation a handle names, in a pool with `generations` generations.
fn unpack_id(h: u32, generations: u32) -> (r: (u32, u32))
    requires
        generations > 0,
    ensures
        r.0 == handle_slot(h),
        r.1 == handle_generation(h, generations as nat),
{
    (h % SLOT_LIMIT, (h / SLOT_LIMIT) % generations)
}

/// The slab shared by both pools. Slot `i` is `data[i]`, `refcounts[i]`, `generations[i]`.
pub struct IdPool {
    data: Vec<Vec<u8>>,
    refcounts: Vec<u32>,
    generations: Vec<u32>,
    free_list: Vec<u32>,
    capacity: usize,
    generation_count: u32,
}

impl View for IdPool {
    type V = PoolView;

    closed spec fn view(&self) -> PoolView {
        PoolView {
            slots: Seq::new(
                self.data@.len(),
                |i: int|
                    SlotView {
                        bytes: self.data@[i]@,
                        refcount: self.refcounts@[i],
                        generation: self.generations@[i],
                    },
            ),
            free: self.free_list@,
            capacity: self.capacity as nat,
            generations: self.generation_count as nat,
        }
    }
}

impl IdPool {
    /// The pool is well formed: its model is, and its parallel columns have one entry per slot.
    pub closed spec fn wf(&self) -> bool {
        &&& self@.wf()
        &&& self.refcounts@.len() == self.data@.len()
        &&& self.generations@.len() == self.data@.len()
    }

    /// An empty pool whose slots take up to `capacity` bytes and whose generations
    /// count modulo `generation_count`.
    pub fn new(capacity: usize, generation_count: u32) -> (r: IdPool)
        requires
            2 <= generation_count,
            generation_count * SLOT_LIMIT <= u32::MAX + 1,
        ensures
            r.wf(),
            r@.wf(),
            r@.slots.len() == 0,
            r@.free.len() == 0,
            r@.capacity == capacity,
            r@.generations == generation_count,
    {
        IdPool {
            data: Vec::new(),
            refcounts: Vec::new(),
            generations: Vec::new(),
            free_list: Vec::new(),
            capacity,
            generation_count,
        }
    }

    /// Adds one page of empty slots and pushes their indices on the free list.
    fn grow(&mut self)
        requires
            old(self).wf(),
            old(self)@.slots.len() + SLOTS_PER_PAGE <= SLOT_LIMIT,
        ensures
            final(self)@ == grown(old(self)@),
            final(self).wf(),
    {
        let base = self.data.len() as u32;
        for i in 0..SLOTS_PER_PAGE
            invariant
                base == old(self)@.slots.len(),
                base + SLOTS_PER_PAGE <= SLOT_LIMIT,
                self.data@.len() == base + i,
                self.refcounts@.len() == base + i,
                self.generations@.len() == base + i,
                self.free_list@.len() == old(self)@.free.len() + i,
                self.capacity == old(self).capacity,
                self.generation_count == old(self).generation_count,
                forall|j: int| 0 <= j < base ==> self.data@[j] == old(self).data@[j],
                forall|j: int| 0 <= j < base ==> self.refcounts@[j] == old(self).refcounts@[j],
                forall|j: int| 0 <= j < base ==> self.generations@[j] == old(self).generations@[j],
                forall|j: int| base <= j < self.data@.len() ==> #[trigger] self.data@[j]@.len() == 0,
                forall|j: int| base <= j < self.data@.len() ==> #[trigger] self.refcounts@[j] == 0,
                forall|j: int| base <= j < self.data@.len() ==> #[trigger] self.generations@[j] == 0,
                forall|j: int|
                    0 <= j < old(self)@.free.len() ==> self.free_list@[j] == old(self).free_list@[j],
                forall|j: int|
                    old(self)@.free.len() <= j < self.free_list@.len() ==> self.free_list@[j] == base
                        + (j - old(self)@.free.len()),
        {
            let empty: Vec<u8> = Vec::new();
            assert(empty@ =~= Seq::<u8>::empty());
            self.data.push(empty);
            self.refcounts.push(0);
            self.generations.push(0);
            self.free_list.push(base + i);
        }
        assert forall|j: int| base <= j < self.data@.len() implies #[trigger] self.data@[j]@ =~= Seq::<u8>::empty() by {
            assert(self.data@[j]@.len() == 0);
        }
        assert(self@.slots =~= grown(old(self)@).slots);
        assert(self@.free =~= grown(old(self)@).free);
    }

    /// Stores a copy of `bytes` in a free slot (growing storage when none is free) and
    /// returns its handle. The slot's refcount starts at zero and its generation advances.
    pub fn allocate(&mut self, bytes: &[u8]) -> (r: Result<u32, TuiError>)
        requires
            old(self).wf(),
        ensures
            final(self).wf(),
            final(self)@.wf(),
            (final(self)@, r) == alloc_result(old(self)@, bytes@),
    {
        if bytes.len() > self.capacity {
            return Err(TuiError::Capacity);
        }
        if self.free_list.len() == 0 {
            if self.data.len() as u32 > SLOT_LIMIT - SLOTS_PER_PAGE {
                return Err(TuiError::Capacity);
            }
            self.grow();
        }
        let ghost g = self@;
        assert(g.free[g.free.len() - 1] < g.slots.len());
        let s = self.free_list.pop().unwrap();
        let su = s as usize;
        let generation = (self.generations[su] + 1) % self.generation_count;
        self.data.set(su, slice_to_vec(bytes));
        self.refcounts.set(su, 0);
        self.generations.set(su, generation);
        proof {
            assert(self@.slots =~= g.slots.update(
                s as int,
                SlotView { bytes: bytes@, refcount: 0, generation },
            ));
            assert(self@.free =~= g.free.drop_last());
            assert(forall|i: int| 0 <= i < self@.free.len() ==> self@.free[i] == g.free[i]);
            assert(self@.slots[s as int].generation < self@.generations);
            assert(forall|i: int| 0 <= i < self@.slots.len() && i != s ==> self@.slots[i] == g.slots[i]);
            assert(generation * SLOT_LIMIT + s <= u32::MAX) by (nonlinear_arith)
                requires
                    generation < g.generations,
                    g.generations * SLOT_LIMIT <= u32::MAX + 1,
                    s < SLOT_LIMIT,
            ;
        }
        Ok(pack_id(s, generation))
    }

    /// The slot index of `h`, if the slot exists and still carries the handle's generation.
    fn check(&self, h: u32) -> (r: Option<usize>)
        requires
            self.wf(),
        ensures
            r is Some <==> valid_handle(self@, h),
            r is Some ==> r->0 == handle_slot(h),
    {
        let (slot, generation) = unpack_id(h, self.generation_count);
        let slot = slot as usize;
        if slot < self.data.len() && self.generations[slot] == generation {
            Some(slot)
        } else {
            None
        }
    }

    /// Adds a reference to the payload behind `h`.
    pub fn incref(&mut self, h: u32) -> (r: Result<(), TuiError>)
        requires
            old(self).wf(),
        ensures
            final(self).wf(),
            final(self)@.wf(),
            (final(self)@, r) == incref_result(old(self)@, h),
    {
        match self.check(h) {
            None => Err(TuiError::InvalidHandle),
            Some(s) => {
                if self.refcounts[s] == u32::MAX {
                    return Err(TuiError::Capacity);
                }
                let rc = self.refcounts[s] + 1;
                self.refcounts.set(s, rc);
                assert(self@.slots =~= incref_result(old(self)@, h).0.slots);
                Ok(())
            },
        }
    }

    /// Drops a reference to the payload behind `h`; at zero the slot is freed.
    pub fn decref(&mut self, h: u32) -> (r: Result<(), TuiError>)
        requires
            old(self).wf(),
        ensures
            final(self).wf(),
            final(self)@.wf(),
            (final(self)@, r) == decref_result(old(self)@, h),
    {
        match self.check(h) {
            None => Err(TuiError::InvalidHandle),
            Some(s) => {
                if self.refcounts[s] == 0 {
                    return Err(TuiError::InvalidHandle);
                }
                let rc = self.refcounts[s] - 1;
                self.refcounts.set(s, rc);
                if rc == 0 {
                    self.free_list.push(s as u32);
                }
                assert(self@.slots =~= decref_result(old(self)@, h).0.slots);
                assert(self@.free =~= decref_result(old(self)@, h).0.free);
                Ok(())
            },
        }
    }

    /// A copy of the payload behind `h`.
    pub fn get_bytes(&self, h: u32) -> (r: Result<Vec<u8>, TuiError>)
        requires
            self.wf(),
        ensures
            self@.wf(),
            r is Ok <==> lookup(self@, h) is Ok,
            r is Err ==> r == Err::<Vec<u8>, TuiError>(TuiError::InvalidHandle),
            r is Ok ==> lookup(self@, h) == Ok::<Seq<u8>, TuiError>(r->Ok_0@),
    {
        match self.check(h) {
            None => Err(TuiError::InvalidHandle),
            Some(s) => Ok(slice_to_vec(self.data[s].as_slice())),
        }
    }

    /// The refcount behind `h`.
    pub fn get_refcount(&self, h: u32) -> (r: Result<u32, TuiError>)
        requires
            self.wf(),
        ensures
            self@.wf(),
            r == refcount_of(self@, h),
    {
        match self.check(h) {
            None => Err(TuiError::InvalidHandle),
            Some(s) => Ok(self.refcounts[s]),
        }
    }

    /// The payload behind `h`, as text.
    pub fn get_text(&self, h: u32) -> (r: Result<String, TuiError>)
        requires
            self.wf(),
        ensures
            self@.wf(),
            r is Ok <==> decoded(lookup(self@, h)) is Ok,
            r is Ok ==> decoded(lookup(self@, h)) == Ok::<Seq<char>, TuiError>(r->Ok_0@),
            r is Err ==> decoded(lookup(self@, h)) == Err::<Seq<char>, TuiError>(r->Err_0),
    {
        let bytes = self.get_bytes(h)?;
        match string_from_utf8(bytes) {
            Some(s) => Ok(s),
            None => Err(TuiError::Encoding),
        }
    }
}

} // verus!

verus! {

proof fn lemma_handle_parts(s: int, g: int, generations: nat)
    requires
        0 <= s < SLOT_LIMIT,
        0 <= g < generations,
    ensures
        pack_handle(s, g) % SLOT_LIMIT as int == s,
        (pack_handle(s, g) / SLOT_LIMIT as int) % generations as int == g,
{
    lemma_fundamental_div_mod_converse(pack_handle(s, g), SLOT_LIMIT as int, g, s);
    lemma_fundamental_div_mod_converse(g, generations as int, 0, g);
}

/// Allocation keeps a pool well formed; it succeeds exactly when the payload fits a slot
/// and a slot is free or storage may still grow, and then the new handle reads back the
/// payload unchanged.
pub proof fn lemma_alloc_round_trip(v: PoolView, b: Seq<u8>)
    requires
        v.wf(),
    ensures
        alloc_result(v, b).0.wf(),
        alloc_result(v, b).1 is Ok <==> b.len() <= v.capacity && (v.free.len() > 0
            || v.slots.len() + SLOTS_PER_PAGE <= SLOT_LIMIT),
        alloc_result(v, b).1 is Ok ==> lookup(alloc_result(v, b).0, alloc_result(v, b).1->Ok_0)
            == Ok::<Seq<u8>, TuiError>(b),
{
    let (v2, r) = alloc_result(v, b);
    if r is Ok {
        let g = if v.free.len() == 0 { grown(v) } else { v };
        if v.free.len() == 0 {
            assert forall|i: int| 0 <= i < g.slots.len() implies #[trigger] g.slots[i].generation
                < g.generations && g.slots[i].bytes.len() <= g.capacity by {
                if i < v.slots.len() {
                    assert(g.slots[i] == v.slots[i]);
                } else {
                    assert(g.slots[i] == SlotView { bytes: Seq::<u8>::empty(), refcount: 0u32, generation: 0u32 });
                }
            }
            assert forall|i: int| 0 <= i < g.free.len() implies g.free[i] < g.slots.len() by {
                if i < v.free.len() {
                    assert(g.free[i] == v.free[i]);
                } else {
                    assert(g.free[i] == (v.slots.len() + (i - v.free.len())) as u32);
                }
            }
        }
        assert(g.wf());
        let s = g.free.last() as int;
        let generation = (g.slots[s].generation + 1) % g.generations as int;
        assert(0 <= s < g.slots.len());
        assert(generation * SLOT_LIMIT + s <= u32::MAX) by (nonlinear_arith)
            requires
                0 <= generation < g.generations,
                g.generations * SLOT_LIMIT <= u32::MAX + 1,
                0 <= s < SLOT_LIMIT,
        ;
        lemma_handle_parts(s, generation, v.generations);
        assert(forall|i: int| 0 <= i < v2.free.len() ==> v2.free[i] == g.free[i]);
    }
}

/// Once the last reference to a payload is dropped, the next allocation reuses its slot
/// under a new generation: the old handle no longer resolves, the new one reads the new
/// payload.
pub proof fn lemma_freed_slot_reused(v: PoolView, h: u32, b: Seq<u8>)
    requires
        v.wf(),
        valid_handle(v, h),
        v.slots[handle_slot(h)].refcount == 1,
        b.len() <= v.capacity,
    ensures
        decref_result(v, h).1 is Ok,
        alloc_result(decref_result(v, h).0, b).1 is Ok,
        handle_slot(alloc_result(decref_result(v, h).0, b).1->Ok_0) == handle_slot(h),
        lookup(alloc_result(decref_result(v, h).0, b).0, h) == Err::<Seq<u8>, TuiError>(
            TuiError::InvalidHandle,
        ),
        lookup(alloc_result(decref_result(v, h).0, b).0, alloc_result(decref_result(v, h).0, b).1->Ok_0)
            == Ok::<Seq<u8>, TuiError>(b),
{
    let v1 = decref_result(v, h).0;
    let s = handle_slot(h);
    assert(v1.free.last() == s as u32);
    assert(v1.wf());
    lemma_alloc_round_trip(v1, b);
    let v2 = alloc_result(v1, b).0;
    let g = v.slots[s].generation;
    assert(v2.slots[s].generation == (g + 1) % v.generations as int);
    assert(v2.slots[s].generation != g) by {
        if g + 1 < v.generations {
            lemma_small_mod((g + 1) as nat, v.generations);
        } else {
            assert(g + 1 == v.generations);
            lemma_mod_self_0(v.generations as int);
        }
    }
}

} // verus!
