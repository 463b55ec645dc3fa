//! The event bridge: an ordered, logically unbounded, non-blocking
//! queue, one per direction, connecting the connection manager and the
//! UI consumer. Delivery is first-in first-out, nothing is duplicated,
//! and a send after the consuming side is gone is a benign no-op.

use vstd::prelude::*;

verus! {

/// One direction of the bridge: a FIFO buffer with a closed flag.
pub struct EventQueue<T> {
    pub items: Vec<T>,
    pub closed: bool,
}

impl<T> EventQueue<T> {
    /// An open, empty queue.
    pub fn new() -> (r: EventQueue<T>)
        ensures
            r.items@.len() == 0,
            !r.closed,
    {
        EventQueue { items: Vec::new(), closed: false }
    }

    /// Appends `v` at the back. After the queue is closed this reports
    /// `false` and leaves the queue untouched — a benign no-op, not an
    /// error.
    pub fn send(&mut self, v: T) -> (ok: bool)
        ensures
            ok == !old(self).closed,
            old(self).closed ==> *final(self) == *old(self),
            !old(self).closed ==> final(self).items@ == old(self).items@.push(v)
                && !final(self).closed,
    {
        if self.closed {
            return false;
        }
        self.items.push(v);
        true
    }

    /// Takes the oldest element, if any, without ever blocking.
    pub fn try_recv(&mut self) -> (r: Option<T>)
        ensures
            final(self).closed == old(self).closed,
            old(self).items@.len() == 0 ==> r is None && final(self).items@ == old(self).items@,
            old(self).items@.len() > 0 ==> (r matches Some(v) && v == old(self).items@[0])
                && final(self).items@ == old(self).items@.drop_first(),
    {
        if self.items.len() == 0 {
            return None;
        }
        let v = self.items.remove(0);
        proof {
            assert(self.items@ =~= old(self).items@.drop_first());
        }
        Some(v)
    }

    /// Takes everything at once, in order; the queue is left empty.
    pub fn drain(&mut self) -> (r: Vec<T>)
        ensures
            r@ == old(self).items@,
            final(self).items@.len() == 0,
            final(self).closed == old(self).closed,
    {
        let mut taken: Vec<T> = Vec::new();
        core::mem::swap(&mut taken, &mut self.items);
        taken
    }

    /// How many elements are waiting.
    pub fn len(&self) -> (n: usize)
        ensures
            n == self.items@.len(),
    {
        self.items.len()
    }

    /// Marks the consuming side as gone: later sends become no-ops.
    pub fn close(&mut self)
        ensures
            final(self).closed,
            final(self).items@ == old(self).items@,
    {
        self.closed = true;
    }
}

} // verus!
