//! The mathematical model of the arena.
//!
//! A `ReapModel<T>` describes an arena as the sequence of its chunk
//! capacities, the bump progress in the newest chunk, the LIFO free list,
//! the map from slot addresses to the live objects they hold, and the count
//! of zero-sized allocations.  The transition functions below say exactly
//! what each arena operation does to this state; the executable code in
//! `arena` is proved to follow them step for step.

use vstd::prelude::*;

verus! {

use vstd::layout::size_of;

/// Number of bytes the first chunk of a fresh arena is sized for.
pub const PAGE_BYTES: usize = 4096;

/// Sentinel chunk index under which zero-sized allocations are booked:
/// they consume no real slot, so no real chunk index applies.
pub const ZST_CHUNK: usize = usize::MAX;

/// Whether the element type occupies no storage.
pub open spec fn is_zst<T>() -> bool {
    size_of::<T>() == 0
}

/// Capacity of the first chunk: one page's worth of objects, rounded up,
/// and at least one object even when a single object exceeds a page.
pub open spec fn first_chunk_cap<T>() -> nat {
    let e = size_of::<T>();
    if e == 0 {
        1
    } else if PAGE_BYTES as nat % e == 0 {
        PAGE_BYTES as nat / e
    } else {
        PAGE_BYTES as nat / e + 1
    }
}

/// The page-based default capacity fits at least one object: when a single
/// object exceeds a page the division rounds up to one.
pub proof fn lemma_first_chunk_cap_pos<T>()
    ensures
        first_chunk_cap::<T>() >= 1,
{
    let e = size_of::<T>();
    if e != 0 && PAGE_BYTES as nat % e == 0 {
        if e > PAGE_BYTES as nat {
            assert(PAGE_BYTES as nat % e == PAGE_BYTES as nat) by (nonlinear_arith)
                requires
                    e > PAGE_BYTES as nat,
            ;
        } else {
            assert(PAGE_BYTES as nat / e >= 1) by (nonlinear_arith)
                requires
                    0 < e <= PAGE_BYTES as nat,
            ;
        }
    }
}

/// The address of one slot: the chunk it lies in and its index there.
/// For a zero-sized element type the chunk is the `ZST_CHUNK` sentinel and
/// the index is the value of the imaginary bump counter at allocation time.
#[derive(Clone, Copy, PartialEq, Eq, Structural, Debug)]
pub struct Addr {
    pub chunk: usize,
    pub idx: usize,
}

/// The abstract state of an arena.
#[verifier::ext_equal]
pub struct ReapModel<T> {
    /// Declared capacity of each chunk, in order of creation.
    pub caps: Seq<nat>,
    /// How many slots of the newest chunk the bump cursor has passed.
    pub used: nat,
    /// Reclaimed slots awaiting reuse; the last entry is reused first.
    pub free: Seq<Addr>,
    /// The objects alive in the arena, by slot address.
    pub store: Map<Addr, T>,
    /// How many zero-sized allocations were ever made.
    pub zst_count: nat,
}

impl<T> ReapModel<T> {
    /// The state of a freshly constructed, empty arena.
    pub open spec fn init() -> Self {
        ReapModel {
            caps: Seq::empty(),
            used: 0,
            free: Seq::empty(),
            store: Map::empty(),
            zst_count: 0,
        }
    }

    /// How far slot handout has progressed in chunk `c`: every chunk but the
    /// newest was filled completely before the next was created.
    pub open spec fn filled(self, c: int) -> nat {
        if c == self.caps.len() - 1 {
            self.used
        } else {
            self.caps[c]
        }
    }

    /// Whether `a` addresses a slot that was ever handed out.
    pub open spec fn is_slot(self, a: Addr) -> bool {
        if is_zst::<T>() {
            a.chunk == ZST_CHUNK && a.idx < self.zst_count
        } else {
            a.chunk < self.caps.len() && a.idx < self.filled(a.chunk as int)
        }
    }

    /// The arena invariant: every slot ever handed out either holds a live
    /// object or stands in the free list exactly once, never both; slots past
    /// the bump cursor were never touched; and every chunk after the first
    /// holds exactly double its predecessor's capacity.
    pub open spec fn wf(self) -> bool {
        &&& self.caps.len() <= usize::MAX
        &&& forall|i: int| 0 <= i < self.caps.len() ==> 1 <= #[trigger] self.caps[i] <= usize::MAX
        &&& forall|i: int| 1 <= i < self.caps.len() ==> #[trigger] self.caps[i] == 2 * self.caps[
            i - 1
        ]
        &&& if self.caps.len() == 0 {
            self.used == 0
        } else {
            self.used <= self.caps.last()
        }
        &&& self.zst_count <= usize::MAX
        &&& (!is_zst::<T>() ==> self.zst_count == 0)
        &&& (is_zst::<T>() ==> self.used == 0)
        &&& forall|a: Addr| #[trigger] self.store.dom().contains(a) ==> self.is_slot(a)
        &&& forall|i: int| 0 <= i < self.free.len() ==> self.is_slot(#[trigger] self.free[i])
        &&& forall|a: Addr|
            #[trigger] self.is_slot(a) ==> (self.store.dom().contains(a) <==> !self.free.contains(
                a,
            ))
        &&& forall|i: int, j: int| 0 <= i < j < self.free.len() ==> self.free[i] != self.free[j]
    }

    /// Whether the bump cursor stands at the limit of the current chunk
    /// (or there is no chunk yet).
    pub open spec fn at_limit(self) -> bool {
        self.caps.len() == 0 || self.used == self.caps.last()
    }

    /// Capacity of the chunk a growth event would append: double the newest
    /// chunk's capacity, or the page-based default for the very first chunk.
    pub open spec fn next_cap(self) -> nat {
        if self.caps.len() == 0 {
            first_chunk_cap::<T>()
        } else {
            2 * self.caps.last()
        }
    }

    /// Whether an allocation would trigger a growth event: the element type
    /// is not zero-sized, the free list is empty, and the bump cursor stands
    /// at the limit of the current chunk.
    pub open spec fn needs_grow(self) -> bool {
        !is_zst::<T>() && self.free.len() == 0 && self.at_limit()
    }

    /// Growth would double the newest capacity; the doubling must fit the
    /// machine's address-space-sized counter, or the process aborts.
    pub open spec fn can_alloc(self) -> bool {
        self.needs_grow() ==> self.next_cap() <= usize::MAX
    }

    /// A growth event: append the next chunk and reset the bump cursor.
    pub open spec fn grow_step(self) -> Self {
        ReapModel { caps: self.caps.push(self.next_cap()), used: 0, ..self }
    }

    /// The slot the next allocation places its object in: the sentinel for a
    /// zero-sized element type, else the most recently freed slot, else the
    /// slot under the bump cursor (after growth, if the cursor is at the
    /// limit).
    pub open spec fn alloc_addr(self) -> Addr {
        if is_zst::<T>() {
            Addr { chunk: ZST_CHUNK, idx: self.zst_count as usize }
        } else if self.free.len() > 0 {
            self.free.last()
        } else if self.at_limit() {
            Addr { chunk: self.caps.len() as usize, idx: 0 }
        } else {
            Addr { chunk: (self.caps.len() - 1) as usize, idx: self.used as usize }
        }
    }

    /// What an allocation does to the arena state.
    pub open spec fn alloc_step(self, object: T) -> Self {
        if is_zst::<T>() {
            ReapModel {
                store: self.store.insert(self.alloc_addr(), object),
                zst_count: self.zst_count + 1,
                ..self
            }
        } else if self.free.len() > 0 {
            ReapModel {
                free: self.free.drop_last(),
                store: self.store.insert(self.alloc_addr(), object),
                ..self
            }
        } else {
            let g = if self.at_limit() {
                self.grow_step()
            } else {
                self
            };
            ReapModel { used: g.used + 1, store: g.store.insert(self.alloc_addr(), object), ..g }
        }
    }

    /// What a deallocation does: the object leaves the store and its slot is
    /// pushed onto the free list.
    pub open spec fn dealloc_step(self, a: Addr) -> Self {
        ReapModel { free: self.free.push(a), store: self.store.remove(a), ..self }
    }

    /// What writing through a live pointer does: the slot's object is
    /// replaced in place.
    pub open spec fn write_step(self, a: Addr, object: T) -> Self {
        ReapModel { store: self.store.insert(a, object), ..self }
    }
}

} // verus!
