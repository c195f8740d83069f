//! What firing a trigger from a state does.

use vstd::prelude::*;

verus! {

/// The closed set of behaviour kinds a trigger can be given: either the
/// machine moves to an explicit destination, or it stays in place and
/// runs the trigger's internal actions.
#[derive(Clone, Copy, Debug)]
pub enum TriggerBehaviour<S, T> {
    Transitioning(Transitioning<S, T>),
    Internal(Internal<T>),
}

impl<S, T> TriggerBehaviour<S, T> {
    /// The transitioning behaviour a `permit` registration produces.
    pub closed spec fn spec_transitioning(trigger: T, destination: S) -> TriggerBehaviour<S, T> {
        TriggerBehaviour::Transitioning(Transitioning { trigger, destination })
    }

    /// The internal behaviour an `internal_transition` registration
    /// produces.
    pub closed spec fn spec_internal(trigger: T) -> TriggerBehaviour<S, T> {
        TriggerBehaviour::Internal(Internal { trigger })
    }
}

/// What the transitioning behaviour of a registration holds.
pub proof fn lemma_spec_transitioning<S: Copy, T>(trigger: T, destination: S)
    ensures
        TriggerBehaviour::spec_transitioning(trigger, destination) matches TriggerBehaviour::Transitioning(b)
            && b.spec_trigger() == trigger && b.spec_destination() == destination,
{
}

/// What the internal behaviour of a registration holds.
pub proof fn lemma_spec_internal<S, T>(trigger: T)
    ensures
        TriggerBehaviour::<S, T>::spec_internal(trigger) matches TriggerBehaviour::Internal(b)
            && b.spec_trigger() == trigger,
{
}

/// Wrapping a transitioning behaviour gives the registration value for
/// its own trigger and destination.
pub proof fn lemma_transitioning_value<S: Copy, T>(b: Transitioning<S, T>)
    ensures
        TriggerBehaviour::Transitioning(b) == TriggerBehaviour::<S, T>::spec_transitioning(
            b.spec_trigger(),
            b.spec_destination(),
        ),
{
}

/// Wrapping an internal behaviour gives the registration value for its
/// own trigger.
pub proof fn lemma_internal_value<S, T>(b: Internal<T>)
    ensures
        TriggerBehaviour::<S, T>::Internal(b) == TriggerBehaviour::<S, T>::spec_internal(b.spec_trigger()),
{
}

/// A behaviour that moves the machine to an explicit destination state,
/// whatever the source.
#[derive(Clone, Copy, Debug)]
pub struct Transitioning<S, T> {
    trigger: T,
    destination: S,
}

impl<S: Copy, T> Transitioning<S, T> {
    /// The trigger this behaviour was registered for.
    pub closed spec fn spec_trigger(self) -> T {
        self.trigger
    }

    /// The state the behaviour sends the machine to.
    pub closed spec fn spec_destination(self) -> S {
        self.destination
    }

    pub fn new(trigger: T, destination: S) -> (r: Self)
        ensures
            r.spec_trigger() == trigger,
            r.spec_destination() == destination,
    {
        Self { trigger, destination }
    }

    /// Resolves the destination: the registered one, unconditionally.
    pub fn fire(&self, _source: S) -> (r: S)
        ensures
            r == self.spec_destination(),
    {
        self.destination
    }
}

/// A behaviour that keeps the machine in its current state; firing it
/// runs only the internal actions registered for the trigger.
#[derive(Clone, Copy, Debug)]
pub struct Internal<T> {
    trigger: T,
}

impl<T> Internal<T> {
    /// The trigger this behaviour was registered for.
    pub closed spec fn spec_trigger(self) -> T {
        self.trigger
    }

    pub fn new(trigger: T) -> (r: Self)
        ensures
            r.spec_trigger() == trigger,
    {
        Self { trigger }
    }

    /// Resolves the destination: the source itself.
    pub fn fire<S>(&self, source: S) -> (r: S)
        ensures
            r == source,
    {
        source
    }
}

} // verus!
