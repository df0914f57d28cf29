use std::cell::Cell;

use reap::{Reap, Rp};

struct DropTracker<'a>(&'a Cell<usize>);

impl<'a> Drop for DropTracker<'a> {
    fn drop(&mut self) {
        self.0.set(self.0.get() + 1);
    }
}

struct Node<'a>(Option<Rp<Node<'a>>>, usize, DropTracker<'a>);

struct ZeroSized;

// Destroys a whole chain of linked nodes, head first; each node's tracker
// drops when its node leaves the arena.
fn drop_chain<'a>(reap: &mut Reap<Node<'a>>, head: Rp<Node<'a>>) {
    let mut cur = Some(head);
    while let Some(p) = cur {
        let Node(next, _value, _tracker) = reap.take(p);
        cur = next;
    }
}

#[test]
fn reap_as_intended() {
    let drop_counter = Cell::new(0);
    let mut reap = Reap::with_capacity(2);

    let mut node = reap.allocate(Node(None, 1, DropTracker(&drop_counter)));
    assert_eq!(reap.chunk_count(), 1);

    node = reap.allocate(Node(Some(node), 2, DropTracker(&drop_counter)));
    assert_eq!(reap.chunk_count(), 1);

    node = reap.allocate(Node(Some(node), 3, DropTracker(&drop_counter)));
    assert_eq!(reap.chunk_count(), 2);

    node = reap.allocate(Node(Some(node), 4, DropTracker(&drop_counter)));
    assert_eq!(reap.chunk_count(), 2);

    assert_eq!(reap.get(&node).1, 4);
    let n = reap.get(&node).0.as_ref().unwrap();
    assert_eq!(reap.get(n).1, 3);
    let n = reap.get(n).0.as_ref().unwrap();
    assert_eq!(reap.get(n).1, 2);
    let n = reap.get(n).0.as_ref().unwrap();
    assert_eq!(reap.get(n).1, 1);
    assert!(reap.get(n).0.is_none());

    drop_chain(&mut reap, node);
    assert_eq!(drop_counter.get(), 4);

    let mut node = reap.allocate(Node(None, 5, DropTracker(&drop_counter)));
    assert_eq!(reap.chunk_count(), 2);

    for i in 6..11 {
        node = reap.allocate(Node(Some(node), i, DropTracker(&drop_counter)));
        assert_eq!(reap.chunk_count(), 2);
    }

    node = reap.allocate(Node(Some(node), 11, DropTracker(&drop_counter)));
    assert_eq!(reap.chunk_count(), 3);

    assert_eq!(reap.get(&node).1, 11);
    let n = reap.get(&node).0.as_ref().unwrap();
    assert_eq!(reap.get(n).1, 10);
    let n = reap.get(n).0.as_ref().unwrap();
    assert_eq!(reap.get(n).1, 9);
    let n = reap.get(n).0.as_ref().unwrap();
    assert_eq!(reap.get(n).1, 8);
    let n = reap.get(n).0.as_ref().unwrap();
    assert_eq!(reap.get(n).1, 7);
    let n = reap.get(n).0.as_ref().unwrap();
    assert_eq!(reap.get(n).1, 6);
    let n = reap.get(n).0.as_ref().unwrap();
    assert_eq!(reap.get(n).1, 5);
    assert!(reap.get(n).0.is_none());

    drop_chain(&mut reap, node);
    assert_eq!(drop_counter.get(), 11);
}

#[test]
fn test_zero_cap() {
    let mut reap = Reap::with_capacity(0);
    assert_eq!(reap.chunk_count(), 0);

    let a = reap.allocate(1);
    let b = reap.allocate(2);
    assert_eq!(*reap.get(&a), 1);
    assert_eq!(*reap.get(&b), 2);
}

#[test]
fn test_zero_sized_type() {
    let mut reap = Reap::new();
    let mut v = Vec::with_capacity(100);

    for _ in 0..100 {
        let alloc = reap.allocate(ZeroSized);
        v.push(alloc);
    }
    assert_eq!(reap.chunk_count(), 0);
}

#[test]
fn growth_doubles_capacity() {
    let mut reap = Reap::with_capacity(2);
    let mut keep = Vec::new();
    for i in 0..7u64 {
        keep.push(reap.allocate(i));
    }
    assert_eq!(reap.chunk_count(), 3);
    assert_eq!(reap.chunk_capacity(0), 2);
    assert_eq!(reap.chunk_capacity(1), 4);
    assert_eq!(reap.chunk_capacity(2), 8);
}

#[test]
fn first_chunk_page_default() {
    let mut reap = Reap::<u64>::with_capacity(0);
    assert_eq!(reap.chunk_count(), 0);
    let _p = reap.allocate(1);
    assert_eq!(reap.chunk_count(), 1);
    assert_eq!(reap.chunk_capacity(0), 512);
}

#[test]
fn first_chunk_rounds_up() {
    let mut reap = Reap::new();
    let _p = reap.allocate([0u8; 3000]);
    assert_eq!(reap.chunk_capacity(0), 2);

    let mut big = Reap::new();
    let _q = big.allocate([0u8; 8192]);
    assert_eq!(big.chunk_capacity(0), 1);
}

#[test]
fn freed_slot_is_reused() {
    let mut reap = Reap::with_capacity(4);
    let a = reap.allocate(10u64);
    let b = reap.allocate(20u64);
    let b_addr = Rp::into_raw(b);
    let b = Rp::from_raw(b_addr, &reap);
    reap.deallocate(b);
    let c = reap.allocate(30u64);
    let c_addr = Rp::into_raw(c);
    assert_eq!(c_addr, b_addr);
    let c = Rp::from_raw(c_addr, &reap);
    assert_eq!(*reap.get(&c), 30);
    assert_eq!(*reap.get(&a), 10);
}

#[test]
fn deallocate_runs_destructor_once() {
    let counter = Cell::new(0);
    let mut reap = Reap::with_capacity(2);
    let p = reap.allocate(DropTracker(&counter));
    assert_eq!(counter.get(), 0);
    reap.deallocate(p);
    assert_eq!(counter.get(), 1);
}

#[test]
fn decompose_recompose_roundtrip() {
    let counter = Cell::new(0);
    let mut reap = Reap::with_capacity(2);
    let p = reap.allocate((41u64, DropTracker(&counter)));
    let addr = Rp::into_raw(p);
    assert_eq!(counter.get(), 0);
    let p = Rp::from_raw(addr, &reap);
    assert_eq!(reap.get(&p).0, 41);
    let addr_again = Rp::into_raw(p);
    assert_eq!(addr_again, addr);
    let p = Rp::from_raw(addr_again, &reap);
    reap.deallocate(p);
    assert_eq!(counter.get(), 1);
}

#[test]
fn raw_roundtrip_keeps_value() {
    let mut reap = Reap::new();
    let x = reap.allocate(101);
    let x_addr = Rp::into_raw(x);
    let x = Rp::from_raw(x_addr, &reap);
    assert_eq!(*reap.get(&x), 101);
}

#[test]
fn set_overwrites_in_place() {
    let mut reap = Reap::with_capacity(1);
    let p = reap.allocate(5u64);
    let addr_before = Rp::into_raw(p);
    let p = Rp::from_raw(addr_before, &reap);
    let prev = reap.set(&p, 6);
    assert_eq!(prev, 5);
    assert_eq!(*reap.get(&p), 6);
    let addr_after = Rp::into_raw(p);
    assert_eq!(addr_after, addr_before);
}

#[test]
fn zero_sized_pointers_are_distinct() {
    let mut reap = Reap::new();
    let p = reap.allocate(ZeroSized);
    let q = reap.allocate(ZeroSized);
    assert_eq!(reap.chunk_count(), 0);
    let pa = Rp::into_raw(p);
    let qa = Rp::into_raw(q);
    assert_ne!(pa, qa);
    let p = Rp::from_raw(pa, &reap);
    let q = Rp::from_raw(qa, &reap);
    reap.deallocate(p);
    reap.deallocate(q);
}

#[test]
fn zero_sized_with_capacity_never_grows() {
    let mut reap = Reap::with_capacity(5);
    let mut keep = Vec::new();
    for _ in 0..50 {
        keep.push(reap.allocate(ZeroSized));
    }
    assert_eq!(reap.chunk_count(), 1);
}

#[test]
fn zero_sized_alloc_and_drop() {
    let mut reap = Reap::new();
    for _ in 0..100 {
        let p = reap.allocate(ZeroSized);
        assert_eq!(reap.chunk_count(), 0);
        reap.deallocate(p);
        assert_eq!(reap.chunk_count(), 0);
    }
}
