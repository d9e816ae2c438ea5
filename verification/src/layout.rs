//! Addressing of the slots of a block-segmented stack.

use vstd::prelude::*;
use vstd::arithmetic::div_mod::{lemma_fundamental_div_mod, lemma_fundamental_div_mod_converse};
use vstd::arithmetic::mul::{lemma_mul_inequality, lemma_mul_is_commutative};

verus! {

/// The address of one slot: the block it lies in and its offset inside that block.
#[derive(Clone, Copy, Debug, PartialEq, Eq, Structural)]
pub struct Slot {
    pub block: usize,
    pub offset: usize,
}

/// The slot that holds the element with logical position `index` when every block has
/// `capacity` slots.
pub open spec fn slot_of(index: int, capacity: int) -> Slot {
    Slot { block: (index / capacity) as usize, offset: (index % capacity) as usize }
}

/// The logical position that `slot` stands for when every block has `capacity` slots.
pub open spec fn index_of(slot: Slot, capacity: int) -> int {
    slot.block * capacity + slot.offset
}

/// A position splits into a block and an offset below the capacity, and is their sum.
pub proof fn lemma_split(index: int, capacity: int)
    requires
        0 <= index,
        0 < capacity,
    ensures
        0 <= index / capacity <= index,
        0 <= index % capacity < capacity,
        (index / capacity) * capacity + index % capacity == index,
{
    lemma_fundamental_div_mod(index, capacity);
    lemma_mul_is_commutative(capacity, index / capacity);
    let q = index / capacity;
    assert(0 <= q <= index) by (nonlinear_arith)
        requires
            q * capacity + index % capacity == index,
            0 <= index % capacity < capacity,
            0 <= index,
            0 < capacity,
    ;
}

/// A block and an offset below the capacity are the block and the offset of their sum.
pub proof fn lemma_join(block: int, offset: int, capacity: int)
    requires
        0 <= block,
        0 <= offset < capacity,
    ensures
        0 <= block * capacity + offset,
        (block * capacity + offset) / capacity == block,
        (block * capacity + offset) % capacity == offset,
{
    assert(0 <= block * capacity) by (nonlinear_arith)
        requires
            0 <= block,
            0 < capacity,
    ;
    lemma_fundamental_div_mod_converse(block * capacity + offset, capacity, block, offset);
}

/// The position after `index` lies one offset further in the same block, or at the start
/// of the next block where `index` was the last slot of its block.
pub proof fn lemma_step(index: int, capacity: int)
    requires
        0 <= index,
        0 < capacity,
    ensures
        index % capacity + 1 < capacity ==> {
            &&& (index + 1) / capacity == index / capacity
            &&& (index + 1) % capacity == index % capacity + 1
        },
        index % capacity + 1 == capacity ==> {
            &&& (index + 1) / capacity == index / capacity + 1
            &&& (index + 1) % capacity == 0
        },
{
    lemma_split(index, capacity);
    let q = index / capacity;
    let r = index % capacity;
    if r + 1 < capacity {
        lemma_join(q, r + 1, capacity);
    } else {
        assert((q + 1) * capacity == q * capacity + capacity) by (nonlinear_arith);
        lemma_join(q + 1, 0, capacity);
    }
}

/// Positions in a lower block come first: the block of a position below `blocks` whole
/// blocks is below `blocks`, and conversely.
pub proof fn lemma_block_bound(index: int, capacity: int, blocks: int)
    requires
        0 <= index,
        0 < capacity,
        0 <= blocks,
    ensures
        index < blocks * capacity <==> index / capacity < blocks,
{
    lemma_split(index, capacity);
    let q = index / capacity;
    if q < blocks {
        lemma_mul_inequality(q + 1, blocks, capacity);
        assert((q + 1) * capacity == q * capacity + capacity) by (nonlinear_arith);
    } else {
        lemma_mul_inequality(blocks, q, capacity);
    }
}

/// A lower position lies in a lower block, or in the same block at a lower offset.
pub proof fn lemma_order(lower: int, upper: int, capacity: int)
    requires
        0 <= lower < upper,
        0 < capacity,
    ensures
        lower / capacity <= upper / capacity,
        lower / capacity == upper / capacity ==> lower % capacity < upper % capacity,
{
    lemma_split(lower, capacity);
    lemma_split(upper, capacity);
    let ql = lower / capacity;
    let qu = upper / capacity;
    if ql > qu {
        lemma_mul_inequality(qu + 1, ql, capacity);
        assert((qu + 1) * capacity == qu * capacity + capacity) by (nonlinear_arith);
    }
}

/// Computes the slot of the element with logical position `index`.
pub fn locate(index: usize, capacity: usize) -> (slot: Slot)
    requires
        capacity > 0,
    ensures
        slot == slot_of(index as int, capacity as int),
        slot.offset < capacity,
        index_of(slot, capacity as int) == index,
{
    proof {
        lemma_split(index as int, capacity as int);
    }
    Slot { block: index / capacity, offset: index % capacity }
}

} // verus!
