//! The mathematical model of a context: what it holds and how many blocks it has allocated.

use vstd::prelude::*;
use crate::layout::{index_of, slot_of, Slot};

verus! {

/// The least number of blocks of `capacity` slots that hold `len` elements.
pub open spec fn blocks_needed(len: int, capacity: int) -> int {
    (len + capacity - 1) / capacity
}

/// How many of the slots of block `block` are live when the stack holds `len` elements:
/// the blocks below the top one are full, the blocks above it are empty.
pub open spec fn live_in_block(len: int, capacity: int, block: int) -> int {
    if block < len / capacity {
        capacity
    } else if block == len / capacity {
        len % capacity
    } else {
        0
    }
}

/// A context seen as a value: the live elements from the oldest to the newest, the fixed
/// capacity of a block, and the number of blocks allocated so far.
pub struct ContextView<T> {
    pub values: Seq<T>,
    pub capacity: nat,
    pub blocks: nat,
}

impl<T> ContextView<T> {
    /// The blocks have room for a positive number of slots each, and together for every
    /// live element, and the number of live elements fits a machine word.
    pub open spec fn wf(self) -> bool {
        &&& self.capacity > 0
        &&& self.values.len() <= self.blocks * self.capacity
        &&& self.values.len() <= usize::MAX
    }

    /// The context right after its creation: nothing stored, nothing allocated.
    pub open spec fn empty(capacity: nat) -> Self {
        ContextView { values: Seq::empty(), capacity, blocks: 0 }
    }

    /// The slot that the next pushed value goes to.
    pub open spec fn next_slot(self) -> Slot {
        slot_of(self.values.len() as int, self.capacity as int)
    }

    /// Every slot of every allocated block is live: the next push has to allocate.
    pub open spec fn is_full(self) -> bool {
        self.values.len() == self.blocks * self.capacity
    }

    /// The context after `value` has been pushed: the value is the newest element, and
    /// one block has been added where there was no free slot.
    pub open spec fn push(self, value: T) -> Self {
        ContextView {
            values: self.values.push(value),
            capacity: self.capacity,
            blocks: if self.is_full() { self.blocks + 1 } else { self.blocks },
        }
    }

    /// The context after the elements of `values` have been pushed, the first one first.
    pub open spec fn push_all(self, values: Seq<T>) -> Self
        decreases values.len(),
    {
        if values.len() == 0 {
            self
        } else {
            self.push_all(values.drop_last()).push(values.last())
        }
    }

    /// The context after the newest element has been removed. No block is given back.
    pub open spec fn pop(self) -> Self {
        ContextView { values: self.values.drop_last(), capacity: self.capacity, blocks: self.blocks }
    }

    /// The slot of the newest element, if there is one.
    pub open spec fn top(self) -> Option<Slot> {
        if self.values.len() == 0 {
            None
        } else {
            Some(slot_of(self.values.len() - 1, self.capacity as int))
        }
    }

    /// `slot` is the address of an element that is present.
    pub open spec fn is_live(self, slot: Slot) -> bool {
        &&& slot.offset < self.capacity
        &&& index_of(slot, self.capacity as int) < self.values.len()
    }

    /// The element stored at `slot`.
    pub open spec fn value_at(self, slot: Slot) -> T
        recommends
            self.is_live(slot),
    {
        self.values[index_of(slot, self.capacity as int)]
    }

    /// `slot` is the address of the newest element.
    pub open spec fn is_top(self, slot: Slot) -> bool {
        self.top() == Some(slot)
    }
}

} // verus!
