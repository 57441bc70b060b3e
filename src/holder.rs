//! The arena that owns every resource materialised while one document is decoded.

use vstd::prelude::*;

verus! {

/// What the holder asks of the type of its slots: that dropping a value
/// releases it. Every type has it.
pub trait JsonApiDrop {}

impl<T> JsonApiDrop for T {}

/// A stable reference to one slot of a `Holder`. Two handles name the same
/// resource exactly when they are equal.
#[derive(Debug, Default, Clone, Copy, PartialEq, Eq, Structural)]
pub struct Handle {
    pub index: usize,
}

/// Append-only storage for the resources of one document. A slot, once handed
/// out, keeps its handle for the holder's whole life; it may be filled in place,
/// never moved or removed. Dropping the holder drops every slot exactly once.
#[derive(Debug)]
pub struct Holder<R> {
    slots: Vec<R>,
}

impl<R> View for Holder<R> {
    type V = Seq<R>;

    closed spec fn view(&self) -> Seq<R> {
        self.slots@
    }
}

impl<R> Default for Holder<R> {
    fn default() -> (h: Holder<R>)
        ensures
            h@ == Seq::<R>::empty(),
    {
        Holder::new()
    }
}

impl<R> Holder<R> {
    /// An empty holder.
    pub fn new() -> (h: Holder<R>)
        ensures
            h@ == Seq::<R>::empty(),
    {
        Holder { slots: Vec::new() }
    }

    /// The number of slots handed out so far.
    pub fn len(&self) -> (n: usize)
        ensures
            n == self@.len(),
    {
        self.slots.len()
    }

    pub fn is_empty(&self) -> (b: bool)
        ensures
            b == (self@.len() == 0),
    {
        self.slots.len() == 0
    }

    /// Stores `value` in a new slot at the end and returns its handle.
    pub fn allocate(&mut self, value: R) -> (h: Handle)
        ensures
            final(self)@ == old(self)@.push(value),
            h.index == old(self)@.len(),
    {
        let index = self.slots.len();
        self.slots.push(value);
        Handle { index }
    }

    /// The resource in the slot `h`.
    pub fn get(&self, h: Handle) -> (r: &R)
        requires
            h.index < self@.len(),
        ensures
            *r == self@[h.index as int],
    {
        &self.slots[h.index]
    }

    /// Fills the slot `h` in place with `value`; the handle stays valid.
    pub(crate) fn fill(&mut self, h: Handle, value: R)
        requires
            h.index < old(self)@.len(),
        ensures
            final(self)@ == old(self)@.update(h.index as int, value),
    {
        self.slots.set(h.index, value);
    }
}

} // verus!
