//! The operations that every way of reaching a context offers.

use vstd::prelude::*;
use crate::context::Context;

verus! {

/// Something that gives access to a context: its length, and pushing a value that stays
/// for good.
pub trait ContextExt: Sized {
    /// The type of the elements.
    type Item;

    /// The elements that are present, from the oldest to the newest.
    spec fn values(&self) -> Seq<Self::Item>;

    /// The context behind `self` is in a state that its operations can start from.
    spec fn ready(&self) -> bool;

    /// The number of elements that are present.
    fn len(&self) -> (n: usize)
        requires
            self.ready(),
        ensures
            n == self.values().len(),
    ;

    /// Whether no element is present.
    fn is_empty(&self) -> (empty: bool)
        requires
            self.ready(),
        ensures
            empty <==> self.values().len() == 0,
    {
        self.len() == 0
    }

    /// Stores `value` on top of the elements that are present. No handle is made for it,
    /// so nothing pops it again.
    fn push(&mut self, value: Self::Item)
        requires
            old(self).ready(),
            old(self).values().len() < usize::MAX,
        ensures
            final(self).ready(),
            final(self).values() == old(self).values().push(value),
    ;
}

impl<T> ContextExt for Context<T> {
    type Item = T;

    open spec fn values(&self) -> Seq<T> {
        self@.values
    }

    open spec fn ready(&self) -> bool {
        self.wf()
    }

    fn len(&self) -> (n: usize) {
        Context::len(self)
    }

    fn push(&mut self, value: T)
        ensures
            final(self)@ == old(self)@.push(value),
    {
        let _ = Context::push(self, value);
    }
}

} // verus!
