//! Work handed to the main thread before its event loop exists: held in
//! order, then flushed when the loop goes live; after that, passed straight
//! through.

use vstd::prelude::*;

verus! {

/// Items for the main thread (closures, in the application). Until the
/// event loop is live they wait here in submission order.
pub struct DeferredQueue<T> {
    live: bool,
    pending: Vec<T>,
}

impl<T> DeferredQueue<T> {
    /// Whether the event loop is live.
    pub closed spec fn spec_live(&self) -> bool {
        self.live
    }

    /// The items waiting, oldest first.
    pub closed spec fn spec_pending(&self) -> Seq<T> {
        self.pending@
    }

    /// A queue whose event loop is not live yet.
    pub fn new() -> (r: Self)
        ensures
            !r.spec_live(),
            r.spec_pending() == Seq::<T>::empty(),
    {
        DeferredQueue { live: false, pending: Vec::new() }
    }

    /// Submit an item: once the loop is live it comes straight back to be
    /// sent; before that it waits at the end of the queue.
    pub fn submit(&mut self, item: T) -> (r: Option<T>)
        ensures
            final(self).spec_live() == old(self).spec_live(),
            old(self).spec_live() ==> r == Some(item) && final(self).spec_pending() == old(self).spec_pending(),
            !old(self).spec_live() ==> r is None && final(self).spec_pending() == old(self).spec_pending().push(item),
    {
        if self.live {
            Some(item)
        } else {
            self.pending.push(item);
            None
        }
    }

    /// The loop is live: hand back every waiting item, oldest first.
    pub fn go_live(&mut self) -> (r: Vec<T>)
        ensures
            final(self).spec_live(),
            final(self).spec_pending() == Seq::<T>::empty(),
            r@ == old(self).spec_pending(),
    {
        self.live = true;
        let mut out: Vec<T> = Vec::new();
        std::mem::swap(&mut out, &mut self.pending);
        out
    }

    /// Take the waiting items without going live.
    pub fn take_pending(&mut self) -> (r: Vec<T>)
        ensures
            final(self).spec_live() == old(self).spec_live(),
            final(self).spec_pending() == Seq::<T>::empty(),
            r@ == old(self).spec_pending(),
    {
        let mut out: Vec<T> = Vec::new();
        std::mem::swap(&mut out, &mut self.pending);
        out
    }
}

impl<T> Default for DeferredQueue<T> {
    fn default() -> (r: Self)
        ensures
            !r.spec_live(),
            r.spec_pending() == Seq::<T>::empty(),
    {
        Self::new()
    }
}

} // verus!
