//! The ordered list of global transition listeners.

use crate::callback::all_notified;
use crate::callback::Listener;
use crate::transition::Transition;
use vstd::prelude::*;

verus! {

/// Holds the global listeners and notifies every one of them, in
/// registration order, after each successful firing.
pub struct TransitionEventHandler<L> {
    events: Vec<L>,
}

impl<L> TransitionEventHandler<L> {
    /// The registered listeners, in registration order.
    pub closed spec fn listeners(self) -> Seq<L> {
        self.events@
    }

    pub fn new() -> (r: Self)
        ensures
            r.listeners() == Seq::<L>::empty(),
    {
        Self { events: Vec::new() }
    }

    /// Appends a listener; listeners accumulate and are never replaced.
    pub fn add_event(&mut self, listener: L)
        ensures
            final(self).listeners() == old(self).listeners().push(listener),
    {
        self.events.push(listener);
    }

    /// How many listeners are registered.
    pub fn event_count(&self) -> (n: usize)
        ensures
            n == self.listeners().len(),
    {
        self.events.len()
    }

    /// Notifies every listener of `transition`, in registration order.
    pub fn fire_events<S, T>(&mut self, transition: &Transition<S, T>) where L: Listener<S, T>
        ensures
            final(self).listeners() == all_notified(old(self).listeners(), *transition),
    {
        let n = self.events.len();
        for i in 0..n
            invariant
                n == self.events@.len(),
                forall|j: int|
                    0 <= j < i ==> self.events@[j] == old(self).events@[j].notified(*transition),
                forall|j: int| i <= j < n ==> self.events@[j] == old(self).events@[j],
        {
            let listener = &mut self.events[i];
            listener.notify(transition);
        }
        assert(self.events@ =~= all_notified(old(self).events@, *transition));
    }
}

impl<L> Default for TransitionEventHandler<L> {
    /// An empty handler, the same as `new` gives.
    fn default() -> (r: Self)
        ensures
            r.listeners() == Seq::<L>::empty(),
    {
        Self::new()
    }
}

} // verus!
