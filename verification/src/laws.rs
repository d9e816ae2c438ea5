//! What holds of every context, proved over its model.

use vstd::prelude::*;
use crate::layout::{
    index_of, lemma_block_bound, lemma_join, lemma_split, lemma_step, slot_of, Slot,
};
use crate::model::{blocks_needed, ContextView};

verus! {

/// A slot below the capacity and the position it stands for determine each other.
pub proof fn law_slot_of_index(index: int, capacity: int)
    requires
        0 <= index <= usize::MAX,
        0 < capacity,
    ensures
        slot_of(index, capacity).offset < capacity,
        index_of(slot_of(index, capacity), capacity) == index,
{
    lemma_split(index, capacity);
}

/// The position of a slot is the position that the slot is computed from again.
pub proof fn law_index_of_slot(slot: Slot, capacity: int)
    requires
        0 < capacity,
        slot.offset < capacity,
    ensures
        slot_of(index_of(slot, capacity), capacity) == slot,
{
    lemma_join(slot.block as int, slot.offset as int, capacity);
}

/// The blocks needed for `len` elements: the whole blocks, and one more for a rest.
pub proof fn law_blocks_needed(len: int, capacity: int)
    requires
        0 <= len,
        0 < capacity,
    ensures
        len % capacity == 0 ==> blocks_needed(len, capacity) == len / capacity,
        len % capacity != 0 ==> blocks_needed(len, capacity) == len / capacity + 1,
        len <= blocks_needed(len, capacity) * capacity,
        len > (blocks_needed(len, capacity) - 1) * capacity,
{
    lemma_split(len, capacity);
    let q = len / capacity;
    let r = len % capacity;
    assert((q + 1) * capacity == q * capacity + capacity) by (nonlinear_arith);
    assert((q - 1) * capacity == q * capacity - capacity) by (nonlinear_arith);
    if r == 0 {
        lemma_join(q, capacity - 1, capacity);
    } else {
        lemma_join(q + 1, r - 1, capacity);
    }
}

/// A new context holds nothing, has allocated nothing and has no newest element.
pub proof fn law_empty<T>(capacity: nat)
    requires
        capacity > 0,
    ensures
        ContextView::<T>::empty(capacity).wf(),
        ContextView::<T>::empty(capacity).values.len() == 0,
        ContextView::<T>::empty(capacity).blocks == 0,
        ContextView::<T>::empty(capacity).top() is None,
{
}

/// A context has a newest element exactly when it is not empty, and the slot of the newest
/// element is live and holds the last element.
pub proof fn law_top<T>(s: ContextView<T>)
    requires
        s.wf(),
    ensures
        s.top() is None <==> s.values.len() == 0,
        s.top() matches Some(slot) ==> s.is_live(slot) && s.value_at(slot) == s.values.last()
            && index_of(slot, s.capacity as int) == s.values.len() - 1,
{
    if s.values.len() > 0 {
        law_slot_of_index(s.values.len() - 1, s.capacity as int);
    }
}

/// The slot of every position below the length is live, lies in an allocated block and
/// holds the element at that position.
pub proof fn law_live_slots<T>(s: ContextView<T>, index: int)
    requires
        s.wf(),
        0 <= index < s.values.len(),
    ensures
        s.is_live(slot_of(index, s.capacity as int)),
        s.value_at(slot_of(index, s.capacity as int)) == s.values[index],
        slot_of(index, s.capacity as int).block < s.blocks,
{
    lemma_block_bound(index, s.capacity as int, s.blocks as int);
    lemma_split(index, s.capacity as int);
}

/// Two live slots with the same element position are the same slot: no two addresses
/// stand for one element.
pub proof fn law_live_slots_distinct<T>(s: ContextView<T>, a: Slot, b: Slot)
    requires
        s.wf(),
        s.is_live(a),
        s.is_live(b),
        index_of(a, s.capacity as int) == index_of(b, s.capacity as int),
    ensures
        a == b,
{
    law_index_of_slot(a, s.capacity as int);
    law_index_of_slot(b, s.capacity as int);
}

/// After a push the newest element is the pushed value, at the slot that the push
/// announced, and the context is well formed again.
pub proof fn law_push_then_top<T>(s: ContextView<T>, value: T)
    requires
        s.wf(),
        s.values.len() < usize::MAX,
    ensures
        s.push(value).wf(),
        s.push(value).values.len() == s.values.len() + 1,
        s.push(value).top() == Some(s.next_slot()),
        s.push(value).is_live(s.next_slot()),
        s.push(value).value_at(s.next_slot()) == value,
{
    let capacity = s.capacity as int;
    let blocks = s.blocks as int;
    assert((blocks + 1) * capacity == blocks * capacity + capacity) by (nonlinear_arith);
    law_top(s.push(value));
}

/// After any pushes, at least one, the newest element is the value pushed last.
pub proof fn law_push_all_then_top<T>(s: ContextView<T>, values: Seq<T>)
    requires
        s.wf(),
        values.len() > 0,
        s.values.len() + values.len() <= usize::MAX,
    ensures
        s.push_all(values).wf(),
        s.push_all(values).top() matches Some(slot) && s.push_all(values).is_live(slot)
            && s.push_all(values).value_at(slot) == values.last(),
{
    law_push_all(s, values.drop_last());
    law_push_then_top(s.push_all(values.drop_last()), values.last());
}

/// Pushing a sequence of values appends them in order, leaves the capacity as it is and
/// gives up no block.
pub proof fn law_push_all<T>(s: ContextView<T>, values: Seq<T>)
    requires
        s.wf(),
        s.values.len() + values.len() <= usize::MAX,
    ensures
        s.push_all(values).wf(),
        s.push_all(values).values == s.values + values,
        s.push_all(values).capacity == s.capacity,
        s.push_all(values).blocks >= s.blocks,
    decreases values.len(),
{
    if values.len() > 0 {
        law_push_all(s, values.drop_last());
        law_push_then_top(s.push_all(values.drop_last()), values.last());
    }
}

/// A pop takes away the newest element and nothing else: after a push it gives back the
/// elements that were there before, whose newest element is the newest one again.
pub proof fn law_pop_undoes_push<T>(s: ContextView<T>, value: T)
    requires
        s.wf(),
        s.values.len() < usize::MAX,
    ensures
        s.push(value).pop().wf(),
        s.push(value).pop().values == s.values,
        s.push(value).pop().capacity == s.capacity,
        s.push(value).pop().top() == s.top(),
{
    law_push_then_top(s, value);
}

/// Push one value, push another, pop: the newest element is the first of the two.
pub proof fn law_push_push_pop<T>(s: ContextView<T>, first: T, second: T)
    requires
        s.wf(),
        s.values.len() + 1 < usize::MAX,
    ensures
        s.push(first).push(second).pop().top() == Some(s.next_slot()),
        s.push(first).push(second).pop().is_live(s.next_slot()),
        s.push(first).push(second).pop().value_at(s.next_slot()) == first,
{
    law_push_then_top(s, first);
}

/// A pop keeps the context well formed and gives back no block.
pub proof fn law_pop<T>(s: ContextView<T>)
    requires
        s.wf(),
        s.values.len() > 0,
    ensures
        s.pop().wf(),
        s.pop().values.len() == s.values.len() - 1,
        s.pop().blocks == s.blocks,
        s.pop().capacity == s.capacity,
{
}

/// A push moves nothing: every slot that was live is live afterwards and holds the same
/// element, whether or not the push allocated a block.
pub proof fn law_push_keeps_slots<T>(s: ContextView<T>, value: T, slot: Slot)
    requires
        s.wf(),
        s.is_live(slot),
    ensures
        s.push(value).is_live(slot),
        s.push(value).value_at(slot) == s.value_at(slot),
{
}

/// Any number of pushes moves nothing: every slot that was live is live afterwards and
/// holds the same element.
pub proof fn law_push_all_keeps_slots<T>(s: ContextView<T>, values: Seq<T>, slot: Slot)
    requires
        s.wf(),
        s.is_live(slot),
        s.values.len() + values.len() <= usize::MAX,
    ensures
        s.push_all(values).is_live(slot),
        s.push_all(values).value_at(slot) == s.value_at(slot),
{
    law_push_all(s, values);
}

/// A pop moves nothing: every live slot but that of the newest element is live afterwards
/// and holds the same element.
pub proof fn law_pop_keeps_slots<T>(s: ContextView<T>, slot: Slot)
    requires
        s.wf(),
        s.is_live(slot),
        !s.is_top(slot),
    ensures
        s.pop().is_live(slot),
        s.pop().value_at(slot) == s.value_at(slot),
{
    law_index_of_slot(slot, s.capacity as int);
}

/// A push allocates one block or none, and one only where the length is a multiple of the
/// capacity; afterwards the blocks are those that were there or those that the elements
/// need, whichever is more.
pub proof fn law_push_allocates<T>(s: ContextView<T>, value: T)
    requires
        s.wf(),
    ensures
        s.push(value).blocks == s.blocks || s.push(value).blocks == s.blocks + 1,
        s.push(value).blocks == s.blocks + 1 ==> s.values.len() as int % s.capacity as int == 0,
        s.push(value).blocks == if s.blocks >= blocks_needed(
            s.values.len() as int + 1,
            s.capacity as int,
        ) {
            s.blocks as int
        } else {
            blocks_needed(s.values.len() as int + 1, s.capacity as int)
        },
{
    let capacity = s.capacity as int;
    let len = s.values.len() as int;
    let blocks = s.blocks as int;
    law_blocks_needed(len + 1, capacity);
    lemma_join(blocks, 0, capacity);
    lemma_block_bound(len, capacity, blocks);
    lemma_step(len, capacity);
}

/// A context that has only been pushed to has allocated exactly the blocks that its
/// elements need: the length divided by the capacity, rounded up.
pub proof fn law_blocks_after_pushes<T>(capacity: nat, values: Seq<T>)
    requires
        capacity > 0,
        values.len() <= usize::MAX,
    ensures
        ContextView::<T>::empty(capacity).push_all(values).values == values,
        ContextView::<T>::empty(capacity).push_all(values).blocks == blocks_needed(
            values.len() as int,
            capacity as int,
        ),
    decreases values.len(),
{
    let empty = ContextView::<T>::empty(capacity);
    if values.len() == 0 {
        law_blocks_needed(0, capacity as int);
    } else {
        law_blocks_after_pushes::<T>(capacity, values.drop_last());
        law_push_all(empty, values.drop_last());
        law_blocks_needed(values.len() - 1, capacity as int);
        law_blocks_needed(values.len() as int, capacity as int);
        lemma_step(values.len() - 1, capacity as int);
    }
}

} // verus!
