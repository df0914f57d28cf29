//! A region allocator ("arena") with per-object reclamation.
//!
//! A `Reap<T>` owns a growing list of chunks of slots for objects of type `T`,
//! a bump cursor into the newest chunk, and a LIFO free list of reclaimed
//! slots.  `allocate` hands out an `Rp<T>`, a smart pointer that wraps the
//! address of the slot now holding the object; the object stays in place for
//! as long as it lives, and reclaiming it returns its slot to the free list
//! for reuse.  Every operation carries a contract over a mathematical model
//! of the arena, and the growth policy, slot reuse, freshness of allocations
//! and the zero-sized-element special case are proved as laws.

mod arena;
mod chunk;
mod laws;
mod model;
mod rp;

pub use arena::Reap;
pub use laws::{
    lemma_alloc_fresh, lemma_dealloc_then_alloc_reuses, lemma_growth_events_counted,
    lemma_growth_policy, lemma_zst_alloc, limit_hits, op_step, run_ops, ReapOp,
};
pub use model::{first_chunk_cap, is_zst, Addr, ReapModel, PAGE_BYTES, ZST_CHUNK};
pub use rp::Rp;
