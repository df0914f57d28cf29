//! A chunk: one contiguous block of slots for objects of a fixed type.
//!
//! A chunk is created with a declared capacity and is owned by the arena's
//! chunk list; once appended it is never resized, so slot addresses into it
//! stay valid for the arena's whole lifetime.  Slot `i` of a chunk holds
//! `Some` object while that slot is live and `None` while it is reclaimed;
//! slots past the bump cursor were never touched and take no storage here.

use vstd::prelude::*;

verus! {

use crate::model::is_zst;

pub(crate) struct Chunk<T> {
    /// Declared number of slots.
    pub cap: usize,
    /// The slots the bump cursor has passed, in order; grows as the cursor
    /// advances and never shrinks.
    pub slots: Vec<Option<T>>,
}

impl<T> Chunk<T> {
    /// Reserves a chunk for `capacity` objects without initializing any slot;
    /// no object is constructed here.
    pub(crate) fn new(capacity: usize) -> (c: Chunk<T>)
        ensures
            c.cap == capacity,
            c.slots@.len() == 0,
    {
        Chunk { cap: capacity, slots: Vec::new() }
    }

    /// The bump limit: one past the index of the last usable slot, which the
    /// fill count reaches exactly when the chunk is full.  For a zero-sized
    /// element type it is a sentinel maximum that the imaginary bump counter
    /// never reaches, since such allocations consume no chunk storage.
    pub(crate) fn end(&self) -> (e: usize)
        ensures
            e == (if is_zst::<T>() {
                usize::MAX
            } else {
                self.cap
            }),
    {
        if core::mem::size_of::<T>() == 0 {
            usize::MAX
        } else {
            self.cap
        }
    }

    /// The number of slots this chunk can hold, reported as an unbounded
    /// sentinel maximum for a zero-sized element type, whose allocations
    /// never consume chunk storage.
    pub(crate) fn capacity(&self) -> (n: usize)
        ensures
            n == (if is_zst::<T>() {
                usize::MAX
            } else {
                self.cap
            }),
    {
        if core::mem::size_of::<T>() == 0 {
            usize::MAX
        } else {
            self.cap
        }
    }
}

} // verus!
