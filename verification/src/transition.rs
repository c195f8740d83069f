//! A single firing event.

use crate::domain::Symbol;
use vstd::prelude::*;

verus! {

/// An immutable description of one firing: the state it left, the
/// trigger that fired, and the state it arrived in.  For an internal
/// firing the destination equals the source.
#[derive(Clone, Copy, Debug)]
pub struct Transition<S, T> {
    pub source: S,
    pub destination: S,
    pub trigger: T,
}

impl<S, T> Transition<S, T> {
    pub fn new(source: S, trigger: T, destination: S) -> (r: Self)
        ensures
            r.source == source,
            r.trigger == trigger,
            r.destination == destination,
    {
        Self { source, destination, trigger }
    }

    /// Whether the firing left a state and arrived back in it.
    pub open spec fn spec_is_reentry(self) -> bool {
        self.source == self.destination
    }
}

impl<S: Symbol, T> Transition<S, T> {
    /// A transition re-enters when its destination equals its source.
    pub fn is_reentry(&self) -> (r: bool)
        ensures
            r == self.spec_is_reentry(),
    {
        self.source.same(&self.destination)
    }
}

} // verus!
