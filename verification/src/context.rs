//! The block-segmented stack.

use vstd::prelude::*;
use crate::layout::{
    index_of, lemma_block_bound, lemma_join, lemma_order, lemma_split, lemma_step, locate, Slot,
};
use crate::laws::{law_push_then_top, law_top};
use crate::model::{live_in_block, ContextView};

verus! {

/// A stack that stores its elements in blocks of one fixed capacity. A block is allocated
/// when the stack first grows into it and stays where it is from then on, so the slot of an
/// element does not change while the element is present.
pub struct Context<T> {
    blocks: Vec<Vec<T>>,
    block_capacity: usize,
    len: usize,
}

impl<T> View for Context<T> {
    type V = ContextView<T>;

    closed spec fn view(&self) -> ContextView<T> {
        ContextView {
            values: Seq::new(
                self.len as nat,
                |i: int|
                    self.blocks@[i / self.block_capacity as int]@[i % self.block_capacity as int],
            ),
            capacity: self.block_capacity as nat,
            blocks: self.blocks@.len(),
        }
    }
}

impl<T> Context<T> {
    /// What the representation keeps true: every allocated block holds exactly its live
    /// elements, and no live element lies beyond the allocated blocks.
    pub closed spec fn inv(&self) -> bool {
        &&& self.block_capacity > 0
        &&& self.len <= self.blocks@.len() * self.block_capacity
        &&& forall|b: int|
            0 <= b < self.blocks@.len() ==> (#[trigger] self.blocks@[b])@.len() == live_in_block(
                self.len as int,
                self.block_capacity as int,
                b,
            )
    }

    /// The context is in a state that its operations can start from.
    pub open spec fn wf(&self) -> bool {
        &&& self.inv()
        &&& self@.wf()
    }

    /// Creates an empty context whose blocks will hold `block_capacity` elements each.
    /// Nothing is allocated yet.
    pub fn new(block_capacity: usize) -> (ctx: Self)
        requires
            block_capacity > 0,
        ensures
            ctx.wf(),
            ctx@ == ContextView::<T>::empty(block_capacity as nat),
    {
        let ctx = Context { blocks: Vec::new(), block_capacity, len: 0 };
        assert(ctx@.values =~= Seq::<T>::empty());
        ctx
    }

    /// The number of elements that are present.
    pub fn len(&self) -> (n: usize)
        requires
            self.wf(),
        ensures
            n == self@.values.len(),
    {
        self.len
    }

    /// Whether no element is present.
    pub fn is_empty(&self) -> (empty: bool)
        requires
            self.wf(),
        ensures
            empty <==> self@.values.len() == 0,
    {
        self.len == 0
    }

    /// The number of slots of each block.
    pub fn block_capacity(&self) -> (capacity: usize)
        requires
            self.wf(),
        ensures
            capacity == self@.capacity,
            capacity > 0,
    {
        self.block_capacity
    }

    /// The number of blocks allocated so far.
    pub fn block_count(&self) -> (count: usize)
        requires
            self.wf(),
        ensures
            count == self@.blocks,
    {
        self.blocks.len()
    }

    /// Allocates the next block. Called when every slot of every block is live.
    #[inline(never)]
    fn reserve_block(&mut self)
        requires
            old(self).wf(),
            old(self)@.is_full(),
        ensures
            final(self).wf(),
            final(self)@.values == old(self)@.values,
            final(self)@.capacity == old(self)@.capacity,
            final(self)@.blocks == old(self)@.blocks + 1,
    {
        let ghost before = *self;
        let block: Vec<T> = Vec::with_capacity(self.block_capacity);
        self.blocks.push(block);
        proof {
            let capacity = self.block_capacity as int;
            let count = before.blocks@.len() as int;
            lemma_join(count, 0, capacity);
            assert((count + 1) * capacity == count * capacity + capacity) by (nonlinear_arith);
            assert forall|i: int| 0 <= i < self.len implies self@.values[i] == before@.values[i] by {
                lemma_block_bound(i, capacity, count);
            }
        }
    }

    /// Stores `value` on top of the stack and returns the slot it went to. A block is
    /// allocated exactly when every slot of every block allocated so far is live; the
    /// elements already present stay where they are.
    pub fn push(&mut self, value: T) -> (slot: Slot)
        requires
            old(self).wf(),
            old(self)@.values.len() < usize::MAX,
        ensures
            final(self).wf(),
            final(self)@ == old(self)@.push(value),
            slot == old(self)@.next_slot(),
            final(self)@.is_top(slot),
            final(self)@.is_live(slot),
            final(self)@.value_at(slot) == value,
    {
        let ghost before = *self;
        let ghost capacity = self.block_capacity as int;
        let slot = locate(self.len, self.block_capacity);
        proof {
            lemma_block_bound(self.len as int, capacity, self.blocks@.len() as int);
            lemma_join(self.blocks@.len() as int, 0, capacity);
        }
        if slot.offset == 0 && slot.block >= self.blocks.len() {
            self.reserve_block();
        }
        self.blocks[slot.block].push(value);
        self.len = self.len + 1;
        proof {
            let len = before.len as int;
            lemma_step(len, capacity);
            assert forall|i: int| 0 <= i < len implies self@.values[i] == before@.values[i] by {
                lemma_order(i, len, capacity);
            }
            assert(self@.values =~= before@.values.push(value));
            law_push_then_top(before@, value);
        }
        slot
    }

    /// The slot of the newest element, or nothing when the context is empty.
    pub fn top(&self) -> (slot: Option<Slot>)
        requires
            self.wf(),
        ensures
            slot == self@.top(),
            slot matches Some(top) ==> self@.is_live(top) && self@.value_at(top)
                == self@.values.last(),
    {
        if self.len == 0 {
            None
        } else {
            Some(locate(self.len - 1, self.block_capacity))
        }
    }

    /// Removes the newest element. The blocks stay allocated.
    pub fn pop(&mut self)
        requires
            old(self).wf(),
            old(self)@.values.len() > 0,
        ensures
            final(self).wf(),
            final(self)@ == old(self)@.pop(),
    {
        let ghost before = *self;
        let ghost capacity = self.block_capacity as int;
        let slot = locate(self.len - 1, self.block_capacity);
        proof {
            lemma_step(self.len - 1, capacity);
            lemma_block_bound(self.len - 1, capacity, self.blocks@.len() as int);
        }
        let _ = self.blocks[slot.block].pop();
        self.len = self.len - 1;
        proof {
            let len = self.len as int;
            assert forall|i: int| 0 <= i < len implies self@.values[i] == before@.values[i] by {
                lemma_order(i, len, capacity);
            }
            assert(self@.values =~= before@.values.drop_last());
        }
    }

    /// Dismantles the context: every block is given up, and each element that was present
    /// is handed over exactly once, the oldest first. Nothing else is handed over.
    pub fn teardown(self) -> (values: Vec<T>)
        requires
            self.wf(),
        ensures
            values@ == self@.values,
    {
        let ghost capacity = self.block_capacity as int;
        let ghost len = self.len as int;
        let ghost live = self@.values;
        let mut blocks = self.blocks;
        let ghost full = blocks@;
        let mut values: Vec<T> = Vec::new();
        let mut b: usize = 0;
        while b < blocks.len()
            invariant
                0 < capacity,
                0 <= len == live.len(),
                b <= blocks@.len() == full.len(),
                len <= full.len() * capacity,
                forall|j: int| b <= j < full.len() ==> blocks@[j] == full[j],
                forall|j: int|
                    0 <= j < full.len() ==> (#[trigger] full[j])@.len() == live_in_block(
                        len,
                        capacity,
                        j,
                    ),
                forall|i: int| 0 <= i < len ==> live[i] == full[i / capacity]@[i % capacity],
                values@.len() == if b * capacity <= len { b * capacity } else { len },
                values@ == live.subrange(0, values@.len() as int),
            decreases blocks@.len() - b,
        {
            let ghost start = values@.len() as int;
            let mut block: Vec<T> = Vec::new();
            core::mem::swap(&mut block, &mut blocks[b]);
            values.append(&mut block);
            proof {
                assert((b + 1) * capacity == b * capacity + capacity) by (nonlinear_arith);
                lemma_split(len, capacity);
                lemma_block_bound(len, capacity, b as int);
                lemma_block_bound(len, capacity, b + 1);
                assert(start + full[b as int]@.len() == if (b + 1) * capacity <= len {
                    (b + 1) * capacity
                } else {
                    len
                });
                assert forall|i: int| 0 <= i < values@.len() implies values@[i] == live[i] by {
                    if i >= start {
                        lemma_join(b as int, i - start, capacity);
                    }
                }
            }
            b = b + 1;
        }
        values
    }

    /// Whether `slot` is the address of an element that is present.
    pub fn is_live(&self, slot: Slot) -> (live: bool)
        requires
            self.wf(),
        ensures
            live == self@.is_live(slot),
    {
        let end = locate(self.len, self.block_capacity);
        proof {
            let capacity = self.block_capacity as int;
            let len = self.len as int;
            if slot.offset < self.block_capacity {
                let index = index_of(slot, capacity);
                lemma_join(slot.block as int, slot.offset as int, capacity);
                if index < len {
                    lemma_order(index, len, capacity);
                } else if index > len {
                    lemma_order(len, index, capacity);
                }
            }
        }
        slot.offset < self.block_capacity && (slot.block < end.block || (slot.block == end.block
            && slot.offset < end.offset))
    }

    /// The element stored at `slot`.
    pub fn get(&self, slot: Slot) -> (value: &T)
        requires
            self.wf(),
            self@.is_live(slot),
        ensures
            *value == self@.value_at(slot),
    {
        proof {
            let capacity = self.block_capacity as int;
            let index = index_of(slot, capacity);
            lemma_join(slot.block as int, slot.offset as int, capacity);
            lemma_order(index, self.len as int, capacity);
            lemma_block_bound(index, capacity, self.blocks@.len() as int);
        }
        &self.blocks[slot.block][slot.offset]
    }
}

} // verus!
