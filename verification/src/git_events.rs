//! Events that Git operations queue for the host to fire on its next
//! tick.

use vstd::prelude::*;

verus! {

/// Queue of `(event name, payload)` pairs, oldest first.
pub struct PendingGitEvents<P> {
    inner: Vec<(&'static str, P)>,
}

impl<P> PendingGitEvents<P> {
    pub closed spec fn queued(&self) -> Seq<(&'static str, P)> {
        self.inner@
    }

    pub fn new() -> (r: Self)
        ensures
            r.queued() == Seq::<(&'static str, P)>::empty(),
    {
        PendingGitEvents { inner: Vec::new() }
    }

    /// Append `events` in order.
    pub fn push_many(&mut self, events: Vec<(&'static str, P)>)
        ensures
            final(self).queued() == old(self).queued() + events@,
    {
        let mut events = events;
        if events.len() == 0 {
            assert(old(self).inner@ + events@ =~= old(self).inner@);
            return;
        }
        self.inner.append(&mut events);
    }

    /// Take every queued event, oldest first.
    pub fn drain(&mut self) -> (r: Vec<(&'static str, P)>)
        ensures
            r@ == old(self).queued(),
            final(self).queued() == Seq::<(&'static str, P)>::empty(),
    {
        let mut taken: Vec<(&'static str, P)> = Vec::new();
        std::mem::swap(&mut taken, &mut self.inner);
        taken
    }

    pub fn is_empty(&self) -> (r: bool)
        ensures
            r == (self.queued().len() == 0),
    {
        self.inner.len() == 0
    }
}

} // verus!
