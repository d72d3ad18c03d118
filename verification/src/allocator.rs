//! The bookkeeping of a bump allocator.
//!
//! The allocator hands out a heap from its start upwards by moving one
//! pointer, and counts the blocks that are in use. A block cannot be given
//! back on its own: the pointer returns to the start of the heap when the
//! last block in use is freed. The allocator only computes addresses; it
//! neither aligns them nor touches the memory behind them, and it does not
//! hold `next` below the end of the heap.

use vstd::prelude::*;

verus! {

/// The state of a bump allocator, as plain numbers.
pub struct BumpState {
    /// The first address of the heap.
    pub heap_start: nat,
    /// The address behind the heap.
    pub heap_end: nat,
    /// The address up to which the heap has been handed out.
    pub next: nat,
    /// How many blocks are in use.
    pub allocations: nat,
}

/// A bump allocator over the addresses from `heap_start` on.
pub struct BumpAllocator {
    heap_start: usize,
    heap_end: usize,
    next: usize,
    allocations: usize,
}

impl View for BumpAllocator {
    type V = BumpState;

    closed spec fn view(&self) -> BumpState {
        BumpState {
            heap_start: self.heap_start as nat,
            heap_end: self.heap_end as nat,
            next: self.next as nat,
            allocations: self.allocations as nat,
        }
    }
}

impl BumpAllocator {
    /// An allocator for a heap of `heap_size` bytes at `heap_start`, with no
    /// block in use.
    pub fn new(heap_start: usize, heap_size: usize) -> (allocator: Self)
        requires
            heap_start + heap_size <= usize::MAX,
        ensures
            allocator@ == (BumpState {
                heap_start: heap_start as nat,
                heap_end: (heap_start + heap_size) as nat,
                next: heap_start as nat,
                allocations: 0,
            }),
    {
        BumpAllocator { heap_start, heap_end: heap_start + heap_size, next: heap_start, allocations: 0 }
    }

    /// Takes `size` bytes: the pointer moves up by `size`, one more block is
    /// in use, and the address that the pointer has reached is returned.
    pub fn allocate(&mut self, size: usize) -> (address: usize)
        requires
            old(self)@.next + size <= usize::MAX,
            old(self)@.allocations < usize::MAX,
        ensures
            final(self)@ == (BumpState {
                next: old(self)@.next + size as nat,
                allocations: old(self)@.allocations + 1,
                ..old(self)@
            }),
            address == final(self)@.next,
    {
        self.next = self.next + size;
        self.allocations = self.allocations + 1;
        self.next
    }

    /// Gives one block back. When it was the last one in use, the whole heap
    /// is free again and the pointer returns to its start.
    pub fn release(&mut self)
        requires
            old(self)@.allocations > 0,
        ensures
            final(self)@ == (BumpState {
                next: if old(self)@.allocations == 1 {
                    old(self)@.heap_start
                } else {
                    old(self)@.next
                },
                allocations: (old(self)@.allocations - 1) as nat,
                ..old(self)@
            }),
    {
        self.allocations = self.allocations - 1;
        if self.allocations == 0 {
            self.next = self.heap_start;
        }
    }

    /// The first address of the heap.
    pub fn heap_start(&self) -> (address: usize)
        ensures
            address == self@.heap_start,
    {
        self.heap_start
    }

    /// The address behind the heap.
    pub fn heap_end(&self) -> (address: usize)
        ensures
            address == self@.heap_end,
    {
        self.heap_end
    }

    /// The address up to which the heap has been handed out.
    pub fn next(&self) -> (address: usize)
        ensures
            address == self@.next,
    {
        self.next
    }

    /// How many blocks are in use.
    pub fn allocations(&self) -> (count: usize)
        ensures
            count == self@.allocations,
    {
        self.allocations
    }
}

} // verus!
