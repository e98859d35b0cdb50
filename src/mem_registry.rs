//! A registry of up to 255 byte buffers addressed by one-byte ids, with id reuse.
use vstd::prelude::*;
use vstd::slice::slice_to_vec;
use crate::error::TuiError;

verus! {

/// The most buffers a registry holds.
pub const MAX_BUFFERS: usize = 255;

/// A registry as a mathematical value: each slot's bytes and whether it is in use, and
/// the stack of released ids (top last).
pub struct RegistryView {
    pub data: Seq<Seq<u8>>,
    pub active: Seq<bool>,
    pub free: Seq<u8>,
}

impl RegistryView {
    pub open spec fn wf(self) -> bool {
        &&& self.data.len() == self.active.len()
        &&& self.data.len() <= MAX_BUFFERS
        &&& forall|i: int|
            0 <= i < self.free.len() ==> #[trigger] self.free[i] < self.data.len()
                && !self.active[self.free[i] as int]
        &&& forall|i: int, j: int|
            0 <= i < j < self.free.len() ==> #[trigger] self.free[i] != #[trigger] self.free[j]
        &&& self.free.len() + count_active(self.active, self.active.len() as int) == self.data.len()
    }

    /// The bytes registered under `id`, if it names a slot in use.
    pub open spec fn lookup(self, id: u8) -> Option<Seq<u8>> {
        if id < self.data.len() && self.active[id as int] {
            Some(self.data[id as int])
        } else {
            None
        }
    }
}

/// Number of slots in use among the first `n`.
pub open spec fn count_active(active: Seq<bool>, n: int) -> nat
    decreases n,
{
    if n <= 0 {
        0
    } else {
        count_active(active, n - 1) + if active[n - 1] { 1nat } else { 0nat }
    }
}

proof fn lemma_count_bound(a: Seq<bool>, n: int)
    requires
        0 <= n <= a.len(),
    ensures
        count_active(a, n) <= n,
    decreases n,
{
    if n > 0 {
        lemma_count_bound(a, n - 1);
    }
}

proof fn lemma_count_update(a: Seq<bool>, i: int, b: bool, n: int)
    requires
        0 <= i < a.len(),
        0 <= n <= a.len(),
    ensures
        count_active(a.update(i, b), n) + (if i < n && a[i] { 1int } else { 0int }) == count_active(a, n)
            + (if i < n && b { 1int } else { 0int }),
    decreases n,
{
    if n > 0 {
        lemma_count_update(a, i, b, n - 1);
    }
}

proof fn lemma_count_prefix(a: Seq<bool>, c: Seq<bool>, n: int)
    requires
        0 <= n <= a.len(),
        n <= c.len(),
        forall|i: int| 0 <= i < n ==> a[i] == c[i],
    ensures
        count_active(a, n) == count_active(c, n),
    decreases n,
{
    if n > 0 {
        lemma_count_prefix(a, c, n - 1);
    }
}

proof fn lemma_count_push(a: Seq<bool>, b: bool)
    ensures
        count_active(a.push(b), a.len() + 1int) == count_active(a, a.len() as int) + if b {
            1nat
        } else {
            0nat
        },
{
    lemma_count_prefix(a, a.push(b), a.len() as int);
}

proof fn lemma_count_none(a: Seq<bool>, n: int)
    requires
        0 <= n <= a.len(),
        forall|i: int| 0 <= i < n ==> !a[i],
    ensures
        count_active(a, n) == 0,
    decreases n,
{
    if n > 0 {
        lemma_count_none(a, n - 1);
    }
}

/// In a well-formed registry the ids in use and the free ids (released ones plus those
/// never handed out) add up to 255.
pub proof fn lemma_used_plus_free(v: RegistryView)
    requires
        v.wf(),
    ensures
        count_active(v.active, v.active.len() as int) + (MAX_BUFFERS - v.data.len() + v.free.len())
            == MAX_BUFFERS,
{
}

/// Registering `bytes`: the new registry and the id, or the error.
pub open spec fn register_result(v: RegistryView, bytes: Seq<u8>) -> (RegistryView, Result<u8, TuiError>) {
    if v.free.len() > 0 {
        let id = v.free.last();
        (
            RegistryView {
                data: v.data.update(id as int, bytes),
                active: v.active.update(id as int, true),
                free: v.free.drop_last(),
            },
            Ok(id),
        )
    } else if v.data.len() >= MAX_BUFFERS {
        (v, Err(TuiError::Capacity))
    } else {
        (
            RegistryView { data: v.data.push(bytes), active: v.active.push(true), free: v.free },
            Ok(v.data.len() as u8),
        )
    }
}

/// Byte buffers behind one-byte ids; released ids are reused, last released first.
pub struct MemRegistry {
    data: Vec<Vec<u8>>,
    active: Vec<bool>,
    free_slots: Vec<u8>,
}

impl View for MemRegistry {
    type V = RegistryView;

    closed spec fn view(&self) -> RegistryView {
        RegistryView {
            data: Seq::new(self.data@.len(), |i: int| self.data@[i]@),
            active: self.active@,
            free: self.free_slots@,
        }
    }
}

impl MemRegistry {
    pub fn new() -> (r: MemRegistry)
        ensures
            r@.wf(),
            r@.data.len() == 0,
            r@.free.len() == 0,
    {
        MemRegistry { data: Vec::new(), active: Vec::new(), free_slots: Vec::new() }
    }

    /// Stores a copy of `data` under a released id if there is one, else under the next
    /// new id; fails with `Capacity` when all 255 ids are in use.
    pub fn register(&mut self, data: &[u8], _owned: bool) -> (r: Result<u8, TuiError>)
        requires
            old(self)@.wf(),
        ensures
            final(self)@.wf(),
            (final(self)@, r) == register_result(old(self)@, data@),
    {
        let n = self.free_slots.len();
        if n > 0 {
            assert(old(self)@.free[n - 1] < old(self)@.data.len());
            let id = self.free_slots[n - 1];
            let _ = self.free_slots.pop();
            self.data.set(id as usize, slice_to_vec(data));
            self.active.set(id as usize, true);
            assert(self@.data =~= old(self)@.data.update(id as int, data@));
            assert(self@.free =~= old(self)@.free.drop_last());
            proof {
                let o = old(self)@;
                lemma_count_update(o.active, id as int, true, o.active.len() as int);
                assert forall|i: int| 0 <= i < self@.free.len() implies #[trigger] self@.free[i]
                    < self@.data.len() && !self@.active[self@.free[i] as int] by {
                    assert(self@.free[i] == o.free[i]);
                    assert(o.free[i] != o.free[n - 1]);
                }
                assert forall|i: int, j: int| 0 <= i < j < self@.free.len() implies #[trigger] self@.free[i]
                    != #[trigger] self@.free[j] by {
                    assert(self@.free[i] == o.free[i]);
                    assert(self@.free[j] == o.free[j]);
                }
            }
            return Ok(id);
        }
        if self.data.len() >= MAX_BUFFERS {
            return Err(TuiError::Capacity);
        }
        let id = self.data.len() as u8;
        self.data.push(slice_to_vec(data));
        self.active.push(true);
        assert(self@.data =~= old(self)@.data.push(data@));
        proof {
            let o = old(self)@;
            lemma_count_push(o.active, true);
            assert forall|i: int| 0 <= i < self@.free.len() implies #[trigger] self@.free[i]
                < self@.data.len() && !self@.active[self@.free[i] as int] by {
                assert(self@.free[i] == o.free[i]);
            }
        }
        Ok(id)
    }

    /// The bytes under `id`; `None` when the id is unknown or released.
    pub fn get(&self, id: u8) -> (r: Option<&[u8]>)
        requires
            self@.wf(),
        ensures
            r is Some <==> self@.lookup(id) is Some,
            r is Some ==> r->0@ == self@.lookup(id)->0,
    {
        let idx = id as usize;
        if idx >= self.data.len() {
            return None;
        }
        if !self.active[idx] {
            return None;
        }
        Some(self.data[idx].as_slice())
    }

    /// Replaces the bytes under `id`; fails with `InvalidHandle` when the id is unknown or
    /// released.
    pub fn replace(&mut self, id: u8, data: &[u8], _owned: bool) -> (r: Result<(), TuiError>)
        requires
            old(self)@.wf(),
        ensures
            final(self)@.wf(),
            r is Err <==> old(self)@.lookup(id) is None,
            r is Err ==> r == Err::<(), TuiError>(TuiError::InvalidHandle) && final(self)@ == old(self)@,
            r is Ok ==> final(self)@ == (RegistryView {
                data: old(self)@.data.update(id as int, data@),
                ..old(self)@
            }),
    {
        let idx = id as usize;
        if idx >= self.data.len() || !self.active[idx] {
            return Err(TuiError::InvalidHandle);
        }
        self.data.set(idx, slice_to_vec(data));
        assert(self@.data =~= old(self)@.data.update(id as int, data@));
        Ok(())
    }

    /// Releases `id`: its bytes are dropped and the id goes on the free stack. Fails with
    /// `InvalidHandle` when the id is unknown or already released.
    pub fn unregister(&mut self, id: u8) -> (r: Result<(), TuiError>)
        requires
            old(self)@.wf(),
        ensures
            final(self)@.wf(),
            r is Err <==> old(self)@.lookup(id) is None,
            r is Err ==> r == Err::<(), TuiError>(TuiError::InvalidHandle) && final(self)@ == old(self)@,
            r is Ok ==> final(self)@ == (RegistryView {
                data: old(self)@.data.update(id as int, Seq::empty()),
                active: old(self)@.active.update(id as int, false),
                free: old(self)@.free.push(id),
            }),
    {
        let idx = id as usize;
        if idx >= self.data.len() || !self.active[idx] {
            return Err(TuiError::InvalidHandle);
        }
        self.data.set(idx, Vec::new());
        self.active.set(idx, false);
        self.free_slots.push(id);
        assert(self@.data =~= old(self)@.data.update(id as int, Seq::empty()));
        proof {
            let o = old(self)@;
            lemma_count_update(o.active, id as int, false, o.active.len() as int);
            assert forall|i: int| 0 <= i < o.free.len() implies o.free[i] != id by {
                assert(!o.active[o.free[i] as int]);
            }
            assert forall|i: int| 0 <= i < self@.free.len() implies #[trigger] self@.free[i]
                < self@.data.len() && !self@.active[self@.free[i] as int] by {
                if i < o.free.len() {
                    assert(self@.free[i] == o.free[i]);
                }
            }
            assert forall|i: int, j: int| 0 <= i < j < self@.free.len() implies #[trigger] self@.free[i]
                != #[trigger] self@.free[j] by {
                assert(self@.free[i] == o.free[i]);
                if j < o.free.len() {
                    assert(self@.free[j] == o.free[j]);
                }
            }
        }
        Ok(())
    }

    /// Releases every slot; the free stack then holds all ids in increasing order.
    pub fn clear(&mut self)
        requires
            old(self)@.wf(),
        ensures
            final(self)@.wf(),
            final(self)@.data.len() == old(self)@.data.len(),
            forall|i: int| 0 <= i < final(self)@.data.len() ==> final(self)@.data[i].len() == 0 && !final(self)@.active[i],
            final(self)@.free == Seq::new(old(self)@.data.len(), |i: int| i as u8),
    {
        let n = self.data.len();
        assert(n == old(self)@.data.len());
        let mut data: Vec<Vec<u8>> = Vec::new();
        let mut active: Vec<bool> = Vec::new();
        let mut free: Vec<u8> = Vec::new();
        for i in 0..n
            invariant
                n <= MAX_BUFFERS,
                data@.len() == i,
                active@.len() == i,
                free@ == Seq::new(i as nat, |j: int| j as u8),
                forall|j: int| 0 <= j < i ==> #[trigger] data@[j]@.len() == 0,
                forall|j: int| 0 <= j < i ==> !#[trigger] active@[j],
        {
            let empty: Vec<u8> = Vec::new();
            assert(empty@.len() == 0);
            data.push(empty);
            active.push(false);
            free.push(i as u8);
            assert(free@ =~= Seq::new((i + 1) as nat, |j: int| j as u8));
        }
        self.data = data;
        self.active = active;
        self.free_slots = free;
        proof {
            lemma_count_none(self@.active, n as int);
            assert forall|i: int| 0 <= i < self@.free.len() implies #[trigger] self@.free[i]
                < self@.data.len() && !self@.active[self@.free[i] as int] by {
                assert(self@.free[i] as int == i);
            }
            assert forall|i: int, j: int| 0 <= i < j < self@.free.len() implies #[trigger] self@.free[i]
                != #[trigger] self@.free[j] by {
                assert(self@.free[i] as int == i);
                assert(self@.free[j] as int == j);
            }
        }
    }

    /// How many ids are in use.
    pub fn get_used_slots(&self) -> (r: usize)
        requires
            self@.wf(),
        ensures
            r == count_active(self@.active, self@.active.len() as int),
    {
        let mut c: usize = 0;
        let n = self.active.len();
        for i in 0..n
            invariant
                n == self@.active.len(),
                n <= MAX_BUFFERS,
                c == count_active(self@.active, i as int),
                c <= i,
        {
            if self.active[i] {
                c = c + 1;
            }
        }
        c
    }

    /// 255 less the ids ever handed out, plus the ids released since: the ids not in use.
    pub fn get_free_slots(&self) -> (r: usize)
        requires
            self@.wf(),
        ensures
            r == MAX_BUFFERS - self@.data.len() + self@.free.len(),
            r == MAX_BUFFERS - count_active(self@.active, self@.active.len() as int),
    {
        proof { lemma_count_bound(self@.active, self@.active.len() as int); }
        let base = MAX_BUFFERS - self.data.len();
        base + self.free_slots.len()
    }
}

impl Default for MemRegistry {
    fn default() -> (r: MemRegistry)
        ensures
            r@.wf(),
            r@.data.len() == 0,
            r@.free.len() == 0,
    {
        MemRegistry::new()
    }
}

} // verus!
