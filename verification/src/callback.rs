//! The callback interfaces: actions on the context, and global listeners.
//!
//! Actions and listeners are caller-defined values implementing a
//! single-method interface; each one carries its own captured state
//! explicitly.  The interfaces pair the executable method with a
//! specification function, so the firing protocol's contracts can state
//! exactly which callbacks run, in what order, and with what arguments.

use crate::transition::Transition;
use vstd::prelude::*;

verus! {

/// An entry, exit or internal action.
///
/// The machine hands an action the transition being fired and exclusive
/// access to the context object for the duration of that one call.
/// `effect` is the implementor's own description of what the call does
/// to the context; `invoke` must behave as `effect` says.
pub trait Action<S, T, O>: Sized {
    /// The context after the action runs, as a function of the
    /// transition and the context it was handed.
    spec fn effect(&self, t: Transition<S, T>, obj: O) -> O;

    /// Runs the action once, with exclusive access to `obj`.
    fn invoke(&self, t: &Transition<S, T>, obj: &mut O)
        ensures
            *final(obj) == self.effect(*t, *old(obj)),
    ;
}

/// A global transition listener, notified once after every successful
/// firing, whether or not the state changed.
///
/// A listener owns its captured state; `notified` is the implementor's
/// own description of its state after one notification.
pub trait Listener<S, T>: Sized {
    /// The listener's value after being notified of `t`.
    spec fn notified(self, t: Transition<S, T>) -> Self;

    /// Notifies the listener of one transition.
    fn notify(&mut self, t: &Transition<S, T>)
        ensures
            *final(self) == old(self).notified(*t),
    ;
}

/// The context after running `actions` on `obj` in order: the first
/// action of the sequence is applied first, each later action to the
/// result of the one before it, all for the same transition `t`.
pub open spec fn run_actions<S, T, O, A: Action<S, T, O>>(
    actions: Seq<A>,
    t: Transition<S, T>,
    obj: O,
) -> O
    decreases actions.len(),
{
    if actions.len() == 0 {
        obj
    } else {
        actions.last().effect(t, run_actions(actions.drop_last(), t, obj))
    }
}

/// Running one more action folds its effect over the result so far.
pub proof fn lemma_run_actions_step<S, T, O, A: Action<S, T, O>>(
    actions: Seq<A>,
    i: int,
    t: Transition<S, T>,
    obj: O,
)
    requires
        0 <= i < actions.len(),
    ensures
        run_actions(actions.take(i + 1), t, obj) == actions[i].effect(
            t,
            run_actions(actions.take(i), t, obj),
        ),
{
    assert(actions.take(i + 1).drop_last() =~= actions.take(i));
}

/// Each listener of `ls`, notified of `t`.
pub open spec fn all_notified<S, T, L: Listener<S, T>>(
    ls: Seq<L>,
    t: Transition<S, T>,
) -> Seq<L> {
    ls.map(|i: int, l: L| l.notified(t))
}

} // verus!
