//! The arena: chunked storage growth, slot allocation and reclamation.

use vstd::prelude::*;

verus! {

use crate::chunk::Chunk;
use crate::model::{is_zst, lemma_first_chunk_cap_pos, Addr, ReapModel, PAGE_BYTES, ZST_CHUNK};
use crate::rp::Rp;

/// A region allocator that owns an ordered list of chunks, a bump cursor
/// into the newest chunk, and a LIFO free list of reclaimed slots.  Objects
/// are placed into slots and never move; a reclaimed slot is reused by a
/// later allocation.  The model of the whole state is `self@`, a
/// `ReapModel<T>`.
pub struct Reap<T> {
    /// The chunks, in order of creation; each is double the size of the last.
    chunks: Vec<Chunk<T>>,
    /// Reclaimed slots able to be reused, most recently freed last.
    free: Vec<Addr>,
    /// Storage for zero-sized allocations, indexed by the imaginary bump
    /// counter; such allocations never touch chunk storage.
    zst: Vec<Option<T>>,
}

impl<T> Reap<T> {
    /// What slot `a` currently holds: `Some` object while live, `None` while
    /// reclaimed or out of range.
    closed spec fn slot_opt(&self, a: Addr) -> Option<T> {
        if is_zst::<T>() {
            if a.chunk == ZST_CHUNK && a.idx < self.zst@.len() {
                self.zst@[a.idx as int]
            } else {
                None
            }
        } else {
            if a.chunk < self.chunks@.len() && a.idx < self.chunks@[a.chunk as int].slots@.len() {
                self.chunks@[a.chunk as int].slots@[a.idx as int]
            } else {
                None
            }
        }
    }

    /// The arena invariant: the model invariant holds of `self@`, every chunk
    /// but the newest is filled to its capacity, and no chunk is filled past
    /// its capacity.  Established by the constructors and preserved by every
    /// operation.
    pub closed spec fn wf(&self) -> bool {
        &&& self@.wf()
        &&& forall|i: int|
            0 <= i < self.chunks@.len() - 1 ==> (#[trigger] self.chunks@[i]).slots@.len()
                == self.chunks@[i].cap
        &&& forall|i: int|
            0 <= i < self.chunks@.len() ==> (#[trigger] self.chunks@[i]).slots@.len()
                <= self.chunks@[i].cap
        &&& (is_zst::<T>() ==> forall|i: int|
            0 <= i < self.chunks@.len() ==> (#[trigger] self.chunks@[i]).slots@.len() == 0)
        &&& (!is_zst::<T>() ==> self.zst@.len() == 0)
    }

    /// Creates an arena with no chunks and an empty free list; the very
    /// first allocation of a sized type triggers growth.
    pub fn new() -> (r: Reap<T>)
        ensures
            r.wf(),
            r@ == ReapModel::<T>::init(),
    {
        let r = Reap { chunks: Vec::new(), free: Vec::new(), zst: Vec::new() };
        proof {
            assert(r@ =~= ReapModel::<T>::init());
        }
        r
    }

    /// Creates an arena whose first chunk is pre-sized for `capacity`
    /// objects; with a capacity of zero no chunk is created at all.
    pub fn with_capacity(capacity: usize) -> (r: Reap<T>)
        ensures
            r.wf(),
            r@ == (if capacity == 0 {
                ReapModel::<T>::init()
            } else {
                ReapModel { caps: seq![capacity as nat], ..ReapModel::<T>::init() }
            }),
    {
        if capacity == 0 {
            Reap::new()
        } else {
            let chunk = Chunk::new(capacity);
            let mut chunks = Vec::new();
            chunks.push(chunk);
            let r = Reap { chunks, free: Vec::new(), zst: Vec::new() };
            proof {
                assert(r@ =~= (ReapModel {
                    caps: seq![capacity as nat],
                    ..ReapModel::<T>::init()
                }));
            }
            r
        }
    }

    /// Appends the next chunk and repositions the bump cursor: the new
    /// capacity is double the newest chunk's, or the page-based default for
    /// the very first chunk.  A doubling that would not fit the capacity
    /// counter is ruled out by the caller.
    fn grow(&mut self)
        requires
            old(self).wf(),
            !is_zst::<T>(),
            old(self)@.at_limit(),
            old(self)@.next_cap() <= usize::MAX,
        ensures
            final(self).wf(),
            final(self)@ == old(self)@.grow_step(),
    {
        let new_cap: usize;
        if self.chunks.len() > 0 {
            let prev_cap = self.chunks[self.chunks.len() - 1].capacity();
            new_cap = prev_cap * 2;
        } else {
            let elem_size = core::mem::size_of::<T>();
            let q = PAGE_BYTES / elem_size;
            new_cap = if PAGE_BYTES % elem_size == 0 {
                q
            } else {
                q + 1
            };
        }
        self.chunks.push(Chunk::new(new_cap));
        proof {
            lemma_first_chunk_cap_pos::<T>();
            let m0 = old(self)@;
            let m1 = self@;
            assert(m1 =~= m0.grow_step());
            assert(m1.caps.last() == m0.next_cap());
            assert forall|a: Addr| m1.is_slot(a) == m0.is_slot(a) by {
                if a.chunk < m0.caps.len() {
                    assert(m1.filled(a.chunk as int) == m0.filled(a.chunk as int));
                }
            }
            vstd::std_specs::vec::axiom_spec_len(&self.chunks);
        }
    }

    /// Allocates `object` and returns a smart pointer to the slot that now
    /// holds it.  The slot is chosen by precedence: for a zero-sized element
    /// type no real storage is used and the imaginary bump counter advances;
    /// otherwise the most recently freed slot is reused if any; otherwise
    /// the object goes under the bump cursor, growing the chunk list first
    /// if the cursor stands at the limit.  The slot never held another live
    /// object at the same time, and the returned address stays valid until
    /// the pointer is destroyed.
    pub fn allocate(&mut self, object: T) -> (p: Rp<T>)
        requires
            old(self).wf(),
            old(self)@.can_alloc(),
        ensures
            final(self).wf(),
            final(self)@ == old(self)@.alloc_step(object),
            p@ == old(self)@.alloc_addr(),
            !old(self)@.store.dom().contains(p@),
            final(self)@.store.dom().contains(p@),
            final(self)@.store[p@] == object,
    {
        if core::mem::size_of::<T>() == 0 {
            let a = Addr { chunk: ZST_CHUNK, idx: self.zst.len() };
            self.zst.push(Some(object));
            proof {
                vstd::std_specs::vec::axiom_spec_len(&self.zst);
                let m0 = old(self)@;
                let m1 = self@;
                assert(!m0.is_slot(a));
                assert(!m0.store.dom().contains(a));
                assert(!m0.free.contains(a)) by {
                    if m0.free.contains(a) {
                        let i = choose|i: int| 0 <= i < m0.free.len() && m0.free[i] == a;
                        assert(m0.is_slot(m0.free[i]));
                    }
                }
                assert(m1.store =~= m0.store.insert(a, object));
                assert(m1 =~= m0.alloc_step(object));
                assert forall|b: Addr| #[trigger] m1.is_slot(b) implies (m1.store.dom().contains(b)
                    <==> !m1.free.contains(b)) by {
                    if b != a {
                        assert(m0.is_slot(b));
                    }
                }
            }
            Rp::make(a)
        } else {
            let popped = self.free.pop();
            if let Some(a) = popped {
                proof {
                    let m0 = old(self)@;
                    assert(m0.free[m0.free.len() - 1] == a);
                    assert(m0.is_slot(a));
                    assert(m0.free.contains(a));
                    assert(!m0.store.dom().contains(a));
                }
                let chunk = &mut self.chunks[a.chunk];
                chunk.slots[a.idx] = Some(object);
                proof {
                    let m0 = old(self)@;
                    let m1 = self@;
                    assert(m1.caps =~= m0.caps);
                    assert(m1.free == m0.free.drop_last());
                    assert(m1.store =~= m0.store.insert(a, object));
                    assert(m1 =~= m0.alloc_step(object));
                    assert forall|b: Addr| #[trigger] m1.is_slot(b) implies (
                    m1.store.dom().contains(b) <==> !m1.free.contains(b)) by {
                        assert(m0.is_slot(b));
                        if b == a {
                            if m1.free.contains(a) {
                                let i = choose|i: int|
                                    0 <= i < m1.free.len() && m1.free[i] == a;
                                assert(m0.free[i] == a);
                            }
                        } else {
                            if m0.free.contains(b) {
                                let i = choose|i: int|
                                    0 <= i < m0.free.len() && m0.free[i] == b;
                                assert(m1.free[i] == b);
                                assert(m1.free.contains(b));
                            }
                            if m1.free.contains(b) {
                                let i = choose|i: int|
                                    0 <= i < m1.free.len() && m1.free[i] == b;
                                assert(m0.free[i] == b);
                                assert(m0.free.contains(b));
                            }
                        }
                    }
                }
                Rp::make(a)
            } else {
                proof {
                    assert(self@ =~= old(self)@);
                }
                let n = self.chunks.len();
                if n == 0 || self.chunks[n - 1].slots.len() == self.chunks[n - 1].end() {
                    self.grow();
                }
                let c = self.chunks.len() - 1;
                let chunk = &mut self.chunks[c];
                let i = chunk.slots.len();
                chunk.slots.push(Some(object));
                let a = Addr { chunk: c, idx: i };
                proof {
                    let m0 = old(self)@;
                    let g = if m0.at_limit() {
                        m0.grow_step()
                    } else {
                        m0
                    };
                    let m1 = self@;
                    assert(a == m0.alloc_addr());
                    assert(!m0.is_slot(a));
                    assert(!m0.store.dom().contains(a));
                    assert(m1.caps =~= g.caps);
                    assert(m1.used == g.used + 1);
                    assert(m1.store =~= g.store.insert(a, object));
                    assert(m1 =~= m0.alloc_step(object));
                    assert forall|b: Addr| #[trigger] m1.is_slot(b) implies (
                    m1.store.dom().contains(b) <==> !m1.free.contains(b)) by {
                        assert(m1.free.len() == 0);
                        if b != a {
                            assert(m0.is_slot(b));
                        }
                    }
                }
                Rp::make(a)
            }
        }
    }

    /// Reclaims the slot behind `p` and hands the object it held back to the
    /// caller, whose drop of the returned value is the object's one
    /// destruction.  The slot goes onto the free list, eligible for reuse by
    /// a later allocation.
    pub fn take(&mut self, p: Rp<T>) -> (object: T)
        requires
            old(self).wf(),
            old(self)@.store.dom().contains(p@),
        ensures
            final(self).wf(),
            final(self)@ == old(self)@.dealloc_step(p@),
            object == old(self)@.store[p@],
    {
        let a = Rp::into_raw(p);
        proof {
            assert(old(self)@.is_slot(a));
            assert(!old(self)@.free.contains(a));
        }
        let object: T;
        if core::mem::size_of::<T>() == 0 {
            let slot = &mut self.zst[a.idx];
            let opt = slot.take();
            object = opt.unwrap();
        } else {
            let chunk = &mut self.chunks[a.chunk];
            let slot = &mut chunk.slots[a.idx];
            let opt = slot.take();
            object = opt.unwrap();
        }
        self.free.push(a);
        proof {
            let m0 = old(self)@;
            let m1 = self@;
            assert(m1.store =~= m0.store.remove(a));
            assert(m1 =~= m0.dealloc_step(a));
            assert forall|b: Addr| #[trigger] m1.is_slot(b) implies (m1.store.dom().contains(b)
                <==> !m1.free.contains(b)) by {
                assert(m0.is_slot(b));
                if b == a {
                    assert(m1.free[m1.free.len() - 1] == a);
                    assert(m1.free.contains(a));
                } else {
                    if m0.free.contains(b) {
                        let i = choose|i: int| 0 <= i < m0.free.len() && m0.free[i] == b;
                        assert(m1.free[i] == b);
                        assert(m1.free.contains(b));
                    }
                    if m1.free.contains(b) {
                        let i = choose|i: int| 0 <= i < m1.free.len() && m1.free[i] == b;
                        assert(i < m0.free.len());
                        assert(m0.free[i] == b);
                        assert(m0.free.contains(b));
                    }
                }
            }
            assert forall|i: int, j: int| 0 <= i < j < m1.free.len() implies m1.free[i]
                != m1.free[j] by {
                if j == m1.free.len() - 1 {
                    assert(m0.free.contains(m0.free[i]));
                }
            }
        }
        object
    }

    /// Destroys the object behind `p`: runs its destructor and pushes its
    /// slot onto the free list, exactly once per pointer.
    pub fn deallocate(&mut self, p: Rp<T>)
        requires
            old(self).wf(),
            old(self)@.store.dom().contains(p@),
        ensures
            final(self).wf(),
            final(self)@ == old(self)@.dealloc_step(p@),
    {
        let _object = self.take(p);
    }

    /// Dereferences `p` for reading: returns the object last written to its
    /// slot.
    pub fn get(&self, p: &Rp<T>) -> (object: &T)
        requires
            self.wf(),
            self@.store.dom().contains(p@),
        ensures
            *object == self@.store[p@],
    {
        let a = p.addr();
        proof {
            assert(self@.is_slot(a));
        }
        if core::mem::size_of::<T>() == 0 {
            self.zst[a.idx].as_ref().unwrap()
        } else {
            self.chunks[a.chunk].slots[a.idx].as_ref().unwrap()
        }
    }

    /// Dereferences `p` for writing: replaces the object in its slot with
    /// `object` and hands the previous object back, whose drop by the caller
    /// is its one destruction.  The slot stays live at the same address.
    pub fn set(&mut self, p: &Rp<T>, object: T) -> (prev: T)
        requires
            old(self).wf(),
            old(self)@.store.dom().contains(p@),
        ensures
            final(self).wf(),
            final(self)@ == old(self)@.write_step(p@, object),
            prev == old(self)@.store[p@],
    {
        let a = p.addr();
        proof {
            assert(old(self)@.is_slot(a));
        }
        let prev: T;
        if core::mem::size_of::<T>() == 0 {
            let slot = &mut self.zst[a.idx];
            let opt = slot.take();
            prev = opt.unwrap();
            *slot = Some(object);
        } else {
            let chunk = &mut self.chunks[a.chunk];
            let slot = &mut chunk.slots[a.idx];
            let opt = slot.take();
            prev = opt.unwrap();
            *slot = Some(object);
        }
        proof {
            let m0 = old(self)@;
            let m1 = self@;
            assert(m1.store =~= m0.store.insert(a, object));
            assert(m1 =~= m0.write_step(a, object));
            assert forall|b: Addr| #[trigger] m1.is_slot(b) implies (m1.store.dom().contains(b)
                <==> !m1.free.contains(b)) by {
                assert(m0.is_slot(b));
            }
        }
        prev
    }

    /// The number of chunks the arena currently owns.
    pub fn chunk_count(&self) -> (n: usize)
        ensures
            n == self@.caps.len(),
    {
        self.chunks.len()
    }

    /// The declared capacity of chunk `i`, counted in objects.
    pub fn chunk_capacity(&self, i: usize) -> (n: usize)
        requires
            i < self@.caps.len(),
        ensures
            n == self@.caps[i as int],
    {
        self.chunks[i].cap
    }
}

impl<T> View for Reap<T> {
    type V = ReapModel<T>;

    closed spec fn view(&self) -> ReapModel<T> {
        ReapModel {
            caps: Seq::new(self.chunks@.len(), |i: int| self.chunks@[i].cap as nat),
            used: if self.chunks@.len() == 0 {
                0
            } else {
                self.chunks@.last().slots@.len()
            },
            free: self.free@,
            store: Map::new(|a: Addr| self.slot_opt(a) is Some, |a: Addr| self.slot_opt(a).unwrap()),
            zst_count: self.zst@.len(),
        }
    }
}

} // verus!
