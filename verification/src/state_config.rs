//! The configuration handle a builder hands out for one state.

use crate::callback::Action;
use crate::domain::Symbol;
use crate::state_representation::StateRepresentation;
use crate::trigger_behaviour::Internal;
use crate::trigger_behaviour::lemma_internal_value;
use crate::trigger_behaviour::lemma_transitioning_value;
use crate::trigger_behaviour::TriggerBehaviour;
use crate::trigger_behaviour::Transitioning;
use vstd::prelude::*;

verus! {

/// A configuration handle: a mutable borrow of one state's
/// representation inside a builder.
///
/// While a handle is alive the builder itself is borrowed, so handles
/// cannot outlive the configuration phase: sealing the builder with
/// `build` is only possible once every handle is gone.
pub struct StateConfig<'a, S, T, O, A> {
    /// The borrowed representation this handle configures.
    pub rep: &'a mut StateRepresentation<S, T, O, A>,
}

impl<'a, S: Symbol, T: Symbol, O, A: Action<S, T, O>> StateConfig<'a, S, T, O, A> {
    /// The state this handle configures.
    pub fn state(&self) -> (r: S)
        ensures
            r == (*old(self.rep)).state_val(),
    {
        self.rep.state()
    }

    /// How many entry actions the state has so far.
    pub fn entry_action_count(&self) -> (n: usize)
        ensures
            n == (*old(self.rep)).entries().len(),
    {
        self.rep.entry_action_count()
    }

    /// How many exit actions the state has so far.
    pub fn exit_action_count(&self) -> (n: usize)
        ensures
            n == (*old(self.rep)).exits().len(),
    {
        self.rep.exit_action_count()
    }

    /// Permits `trigger` from this state, transitioning to
    /// `destination_state`; a later registration for the same trigger
    /// overwrites an earlier one.
    pub fn permit(self, trigger: T, destination_state: S) -> (r: Self)
        ensures
            (*r.rep).state_val() == (*old(self.rep)).state_val(),
            (*r.rep).behaviours() == (*old(self.rep)).behaviours().insert(
                trigger,
                TriggerBehaviour::spec_transitioning(trigger, destination_state),
            ),
            (*r.rep).entries() == (*old(self.rep)).entries(),
            (*r.rep).exits() == (*old(self.rep)).exits(),
            (*r.rep).internals() == (*old(self.rep)).internals(),
            *final(r.rep) == *final(self.rep),
    {
        let behaviour = Transitioning::new(trigger, destination_state);
        proof {
            lemma_transitioning_value(behaviour);
        }
        self.rep.add_trigger_behaviour(trigger, TriggerBehaviour::Transitioning(behaviour));
        self
    }

    /// Registers `trigger` as an internal transition of this state and
    /// appends `internal_action` to the actions run when it fires.
    pub fn internal_transition(self, trigger: T, internal_action: A) -> (r: Self)
        ensures
            (*r.rep).state_val() == (*old(self.rep)).state_val(),
            (*r.rep).behaviours() == (*old(self.rep)).behaviours().insert(
                trigger,
                TriggerBehaviour::spec_internal(trigger),
            ),
            (*r.rep).entries() == (*old(self.rep)).entries(),
            (*r.rep).exits() == (*old(self.rep)).exits(),
            (*r.rep).internals() == (*old(self.rep)).internals().push((trigger, internal_action)),
            *final(r.rep) == *final(self.rep),
    {
        let behaviour = Internal::new(trigger);
        proof {
            lemma_internal_value::<S, T>(behaviour);
        }
        self.rep.add_trigger_behaviour(trigger, TriggerBehaviour::Internal(behaviour));
        self.rep.add_internal_action(trigger, internal_action);
        self
    }

    /// Appends an entry action to this state.
    pub fn on_entry(self, f: A) -> (r: Self)
        ensures
            (*r.rep).state_val() == (*old(self.rep)).state_val(),
            (*r.rep).behaviours() == (*old(self.rep)).behaviours(),
            (*r.rep).entries() == (*old(self.rep)).entries().push(f),
            (*r.rep).exits() == (*old(self.rep)).exits(),
            (*r.rep).internals() == (*old(self.rep)).internals(),
            *final(r.rep) == *final(self.rep),
    {
        self.rep.add_entry_action(f);
        self
    }

    /// Appends an exit action to this state.
    pub fn on_exit(self, f: A) -> (r: Self)
        ensures
            (*r.rep).state_val() == (*old(self.rep)).state_val(),
            (*r.rep).behaviours() == (*old(self.rep)).behaviours(),
            (*r.rep).entries() == (*old(self.rep)).entries(),
            (*r.rep).exits() == (*old(self.rep)).exits().push(f),
            (*r.rep).internals() == (*old(self.rep)).internals(),
            *final(r.rep) == *final(self.rep),
    {
        self.rep.add_exit_action(f);
        self
    }
}

} // verus!
