//! The completed-work queue between background tasks and the interactive
//! loop.
//!
//! Producers append finished results; the single consumer drains everything
//! at once, in append order.  Nothing is lost and nothing is duplicated:
//! a drain hands back exactly the queued items and leaves the queue empty.
//! The mutual exclusion around the queue belongs to the surrounding
//! application; this type is the queue itself.

use vstd::prelude::*;
use crate::models::PendingOperation;

verus! {

/// An order-preserving queue of completed background results.
pub struct AsyncResultBus {
    items: Vec<PendingOperation>,
}

impl View for AsyncResultBus {
    type V = Seq<PendingOperation>;

    closed spec fn view(&self) -> Seq<PendingOperation> {
        self.items@
    }
}

impl AsyncResultBus {
    /// The empty queue.
    pub fn new() -> (r: AsyncResultBus)
        ensures
            r@ == Seq::<PendingOperation>::empty(),
    {
        AsyncResultBus { items: Vec::new() }
    }

    /// How many results are waiting.
    pub fn len(&self) -> (n: usize)
        ensures
            n == self@.len(),
    {
        self.items.len()
    }

    /// Appends one completed result at the back.
    pub fn post(&mut self, item: PendingOperation)
        ensures
            final(self)@ == old(self)@.push(item),
    {
        self.items.push(item);
    }

    /// Removes and returns every queued item, in the order appended; the
    /// queue is empty afterwards.  Draining an empty queue returns nothing.
    pub fn drain(&mut self) -> (r: Vec<PendingOperation>)
        ensures
            r@ == old(self)@,
            final(self)@ == Seq::<PendingOperation>::empty(),
    {
        let mut taken: Vec<PendingOperation> = Vec::new();
        core::mem::swap(&mut self.items, &mut taken);
        taken
    }
}

} // verus!
