//! Laws of the arena, proved over the model.

use vstd::prelude::*;

verus! {

use crate::model::{first_chunk_cap, is_zst, lemma_first_chunk_cap_pos, Addr, ReapModel};

/// Growth policy: an allocation appends a chunk exactly when the free list
/// is empty and the bump cursor stands at the current chunk's limit, and the
/// appended chunk's capacity is double the newest chunk's — or the
/// page-based default, at least one object, for the very first chunk.
pub proof fn lemma_growth_policy<T>(m: ReapModel<T>, object: T)
    requires
        m.wf(),
    ensures
        m.alloc_step(object).caps == (if m.needs_grow() {
            m.caps.push(m.next_cap())
        } else {
            m.caps
        }),
        m.caps.len() == 0 ==> m.next_cap() == first_chunk_cap::<T>(),
        m.caps.len() > 0 ==> m.next_cap() == 2 * m.caps.last(),
        first_chunk_cap::<T>() >= 1,
{
    lemma_first_chunk_cap_pos::<T>();
}

/// One call on an arena, as the model sees it: an allocation of an object
/// or a deallocation of a slot.
pub enum ReapOp<T> {
    Allocate(T),
    Deallocate(Addr),
}

/// What one call does to the arena state.
pub open spec fn op_step<T>(m: ReapModel<T>, op: ReapOp<T>) -> ReapModel<T> {
    match op {
        ReapOp::Allocate(object) => m.alloc_step(object),
        ReapOp::Deallocate(a) => m.dealloc_step(a),
    }
}

/// The arena state after a whole sequence of calls.
pub open spec fn run_ops<T>(m: ReapModel<T>, ops: Seq<ReapOp<T>>) -> ReapModel<T>
    decreases ops.len(),
{
    if ops.len() == 0 {
        m
    } else {
        run_ops(op_step(m, ops[0]), ops.drop_first())
    }
}

/// How many calls of the sequence are allocations that find the free list
/// empty and the bump cursor at the current chunk's limit.
pub open spec fn limit_hits<T>(m: ReapModel<T>, ops: Seq<ReapOp<T>>) -> nat
    decreases ops.len(),
{
    if ops.len() == 0 {
        0
    } else {
        let hit: nat = if ops[0] is Allocate && m.needs_grow() {
            1
        } else {
            0
        };
        hit + limit_hits(op_step(m, ops[0]), ops.drop_first())
    }
}

/// Growth counting: over any sequence of allocations and deallocations, the
/// number of chunk-growth events — the chunks the arena gains — equals the
/// number of allocations that found the free list empty with the bump cursor
/// at the current chunk's limit.
pub proof fn lemma_growth_events_counted<T>(m: ReapModel<T>, ops: Seq<ReapOp<T>>)
    ensures
        run_ops(m, ops).caps.len() == m.caps.len() + limit_hits(m, ops),
    decreases ops.len(),
{
    if ops.len() > 0 {
        lemma_growth_events_counted(op_step(m, ops[0]), ops.drop_first());
    }
}

/// Freshness: the slot an allocation chooses holds no live object at that
/// moment — no two simultaneously live pointers ever share an address — and
/// every other live object stays where it was, untouched.
pub proof fn lemma_alloc_fresh<T>(m: ReapModel<T>, object: T)
    requires
        m.wf(),
    ensures
        !m.store.dom().contains(m.alloc_addr()),
        m.alloc_step(object).store == m.store.insert(m.alloc_addr(), object),
        m.alloc_step(object).store[m.alloc_addr()] == object,
        forall|a: Addr|
            a != m.alloc_addr() && #[trigger] m.store.dom().contains(a)
                ==> m.alloc_step(object).store[a] == m.store[a],
{
    if !is_zst::<T>() && m.free.len() > 0 {
        let a = m.free.last();
        assert(m.free[m.free.len() - 1] == a);
        assert(m.free.contains(a));
        assert(m.is_slot(a));
    }
}

/// Reclamation: deallocating a live pointer's slot removes its object, and
/// the very next allocation on the same arena reuses exactly that slot.
pub proof fn lemma_dealloc_then_alloc_reuses<T>(m: ReapModel<T>, a: Addr, object: T)
    requires
        m.wf(),
        m.store.dom().contains(a),
        !is_zst::<T>(),
    ensures
        !m.dealloc_step(a).store.dom().contains(a),
        m.dealloc_step(a).alloc_addr() == a,
        m.dealloc_step(a).alloc_step(object).store.dom().contains(a),
        m.dealloc_step(a).alloc_step(object).store[a] == object,
        m.dealloc_step(a).alloc_step(object).caps == m.caps,
{
    let d = m.dealloc_step(a);
    assert(d.free.last() == a);
}

/// Zero-sized element types: an allocation never grows the chunk list, the
/// imaginary bump counter advances, and the pointer handed out is distinct
/// from every live pointer and from the next one.
pub proof fn lemma_zst_alloc<T>(m: ReapModel<T>, object: T)
    requires
        m.wf(),
        is_zst::<T>(),
        m.zst_count + 1 <= usize::MAX,
    ensures
        m.alloc_step(object).caps == m.caps,
        m.alloc_step(object).zst_count == m.zst_count + 1,
        !m.store.dom().contains(m.alloc_addr()),
        m.alloc_step(object).alloc_addr() != m.alloc_addr(),
{
}

} // verus!
