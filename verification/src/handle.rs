//! The handles through which a scope holds a place in a context.

use core::marker::PhantomData;
use vstd::prelude::*;
use crate::context::Context;
use crate::layout::Slot;

verus! {

/// A marker that stands for one scope. A handle borrows the marker of the scope that made
/// it, and so cannot be kept beyond that scope.
pub struct StackPin(());

/// A view of one element of a context that leaves the context as it is.
pub struct StackGuard<'a, T> {
    slot: Slot,
    stack_pin: PhantomData<&'a StackPin>,
    element: PhantomData<T>,
}

/// The handle of a scope that has pushed a value: it is given up, by `release`, to pop
/// that value again when the scope ends.
#[must_use]
pub struct Item<'a, T> {
    slot: Slot,
    stack_pin: PhantomData<&'a StackPin>,
    element: PhantomData<T>,
}

impl StackPin {
    /// Makes the marker of the scope that calls it.
    pub fn new() -> Self {
        StackPin(())
    }
}

impl<'a, T> View for StackGuard<'a, T> {
    type V = Slot;

    /// The slot that the guard looks at.
    closed spec fn view(&self) -> Slot {
        self.slot
    }
}

impl<'a, T> View for Item<'a, T> {
    type V = Slot;

    /// The slot that holds the pushed value.
    closed spec fn view(&self) -> Slot {
        self.slot
    }
}

impl<'a, T> StackGuard<'a, T> {
    /// The slot that the guard looks at.
    pub fn slot(&self) -> (slot: Slot)
        ensures
            slot == self@,
    {
        self.slot
    }

    /// Looks at the newest element of `context`, or at nothing when `context` is empty.
    pub fn from_ref(context: &Context<T>, _pin: &'a StackPin) -> (guard: Option<Self>)
        requires
            context.wf(),
        ensures
            guard is None <==> context@.values.len() == 0,
            guard matches Some(g) ==> context@.is_top(g@) && context@.is_live(g@)
                && context@.value_at(g@) == context@.values.last(),
    {
        match context.top() {
            Some(slot) => Some(StackGuard { slot, stack_pin: PhantomData, element: PhantomData }),
            None => None,
        }
    }

    /// Looks at the newest element of a context that holds one. To ask this of an empty
    /// context is a mistake of the caller.
    pub fn from_ref_strict(context: &Context<T>, _pin: &'a StackPin) -> (guard: Self)
        requires
            context.wf(),
            context@.values.len() > 0,
        ensures
            context@.is_top(guard@),
            context@.is_live(guard@),
            context@.value_at(guard@) == context@.values.last(),
    {
        let slot = context.top().expect("tried to get from an empty context");
        StackGuard { slot, stack_pin: PhantomData, element: PhantomData }
    }

    /// The element that the guard looks at, read from the context it was made for.
    pub fn get<'c>(&self, context: &'c Context<T>) -> (value: &'c T)
        requires
            context.wf(),
            context@.is_live(self@),
        ensures
            *value == context@.value_at(self@),
    {
        context.get(self.slot)
    }
}

impl<'a, T> Item<'a, T> {
    /// The slot that holds the pushed value.
    pub fn slot(&self) -> (slot: Slot)
        ensures
            slot == self@,
    {
        self.slot
    }

    /// Pushes `value` onto `ctx` and returns the handle of the pushed element.
    pub fn from_ref(ctx: &mut Context<T>, _pin: &'a StackPin, value: T) -> (item: Self)
        requires
            old(ctx).wf(),
            old(ctx)@.values.len() < usize::MAX,
        ensures
            final(ctx).wf(),
            final(ctx)@ == old(ctx)@.push(value),
            item@ == old(ctx)@.next_slot(),
            final(ctx)@.is_top(item@),
            final(ctx)@.is_live(item@),
            final(ctx)@.value_at(item@) == value,
    {
        let slot = ctx.push(value);
        Item { slot, stack_pin: PhantomData, element: PhantomData }
    }

    /// A guard that looks at the pushed element.
    pub fn guard(&self) -> (guard: StackGuard<'_, T>)
        ensures
            guard@ == self@,
    {
        StackGuard { slot: self.slot, stack_pin: PhantomData, element: PhantomData }
    }

    /// The pushed value, read from the context it was pushed onto.
    pub fn get<'c>(&self, ctx: &'c Context<T>) -> (value: &'c T)
        requires
            ctx.wf(),
            ctx@.is_live(self@),
        ensures
            *value == ctx@.value_at(self@),
    {
        ctx.get(self.slot)
    }

    /// Ends the scope of the handle: pops the pushed element, which has to be the newest
    /// one of `ctx`, so that handles are released in the reverse order of their making.
    pub fn release(self, ctx: &mut Context<T>)
        requires
            old(ctx).wf(),
            old(ctx)@.is_top(self@),
        ensures
            final(ctx).wf(),
            final(ctx)@ == old(ctx)@.pop(),
    {
        ctx.pop();
    }
}

} // verus!
