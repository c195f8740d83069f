//! The configuration-phase API that seals into a machine.

use crate::callback::Action;
use crate::callback::Listener;
use crate::domain::StateDomain;
use crate::domain::Symbol;
use crate::state_config::StateConfig;
use crate::state_machine::StateMachine;
use crate::state_representation::find_state_index;
use crate::state_representation::lemma_state_index;
use crate::state_representation::lemma_state_index_update;
use crate::state_representation::state_index;
use crate::state_representation::StateRepresentation;
use crate::statemachine_error::StateMachineError;
use crate::transition_event::TransitionEventHandler;
use crate::trigger_behaviour::TriggerBehaviour;
use vstd::prelude::*;

verus! {

/// Builds a state machine: creates one representation per state of the
/// domain up front, hands out per-state configuration handles, and is
/// consumed by `build`, the only path to a [`StateMachine`].
///
/// A configuration handle borrows the builder mutably, so configuration
/// and sealing cannot overlap: once `build` consumes the builder, no
/// handle is left through which the sealed table could change.
pub struct StateMachineBuilder<S, T, O, A, L> {
    initial_state: S,
    states: Vec<StateRepresentation<S, T, O, A>>,
    transition_event: TransitionEventHandler<L>,
}

impl<S: StateDomain, T: Symbol, O, A: Action<S, T, O>, L: Listener<S, T>> StateMachineBuilder<
    S,
    T,
    O,
    A,
    L,
> {
    /// The state the machine will start in.
    pub closed spec fn spec_initial(self) -> S {
        self.initial_state
    }

    /// The state representations under construction, one per domain
    /// element, in enumeration order.
    pub closed spec fn reps(self) -> Seq<StateRepresentation<S, T, O, A>> {
        self.states@
    }

    /// The global listeners registered so far.
    pub closed spec fn listeners(self) -> Seq<L> {
        self.transition_event.listeners()
    }

    /// Every state has a representation.  `new` establishes this and
    /// every configuration step preserves it.
    pub open spec fn wf(self) -> bool {
        forall|s: S| state_index(self.reps(), s) < self.reps().len()
    }

    /// Creates a builder with one fresh representation per value of the
    /// state domain, so every state is addressable before the caller
    /// touches it.
    pub fn new(initial_state: S) -> (r: Self)
        ensures
            r.wf(),
            r.spec_initial() == initial_state,
            r.listeners() == Seq::<L>::empty(),
            r.reps().len() == S::domain().len(),
            forall|i: int|
                0 <= i < r.reps().len() ==> {
                    &&& (#[trigger] r.reps()[i]).state_val() == S::domain()[i]
                    &&& r.reps()[i].behaviours() == Map::<T, TriggerBehaviour<S, T>>::empty()
                    &&& r.reps()[i].entries() == Seq::<A>::empty()
                    &&& r.reps()[i].exits() == Seq::<A>::empty()
                    &&& r.reps()[i].internals() == Seq::<(T, A)>::empty()
                },
    {
        let domain_states = S::enumerate();
        let n = domain_states.len();
        let mut states: Vec<StateRepresentation<S, T, O, A>> = Vec::new();
        for i in 0..n
            invariant
                n == domain_states@.len(),
                domain_states@ == S::domain(),
                states@.len() == i,
                forall|j: int|
                    0 <= j < i ==> {
                        &&& (#[trigger] states@[j]).state_val() == S::domain()[j]
                        &&& states@[j].behaviours() == Map::<T, TriggerBehaviour<S, T>>::empty()
                        &&& states@[j].entries() == Seq::<A>::empty()
                        &&& states@[j].exits() == Seq::<A>::empty()
                        &&& states@[j].internals() == Seq::<(T, A)>::empty()
                    },
        {
            states.push(StateRepresentation::new(domain_states[i]));
        }
        let r = Self {
            initial_state,
            states,
            transition_event: TransitionEventHandler::new(),
        };
        proof {
            assert forall|s: S| state_index(r.reps(), s) < r.reps().len() by {
                S::domain_full(s);
                lemma_state_index(r.reps(), s);
                if state_index(r.reps(), s) == r.reps().len() {
                    let k = choose|k: int| 0 <= k < S::domain().len() && S::domain()[k] == s;
                    assert(r.reps()[k].state_val() == s);
                    assert(false);
                }
            }
        }
        r
    }

    /// Hands out a configuration handle for `state`: a mutable borrow
    /// of that state's representation.  Handles can be obtained
    /// repeatedly; each one's changes land in the builder when the
    /// handle is released.
    pub fn config<'a>(&'a mut self, state: S) -> (h: StateConfig<'a, S, T, O, A>)
        requires
            old(self).wf(),
        ensures
            *h.rep == old(self).reps()[state_index(old(self).reps(), state)],
            (*h.rep).state_val() == state,
            0 <= state_index(old(self).reps(), state) < old(self).reps().len(),
            final(self).reps().len() == old(self).reps().len(),
            final(self).reps() == old(self).reps().update(
                state_index(old(self).reps(), state),
                *final(h.rep),
            ),
            final(self).spec_initial() == old(self).spec_initial(),
            final(self).listeners() == old(self).listeners(),
            (*final(h.rep)).state_val() == state ==> final(self).wf(),
    {
        proof {
            assert(state_index(old(self).reps(), state) < old(self).reps().len());
            lemma_state_index(self.states@, state);
        }
        let i = find_state_index(&self.states, state);
        let h = StateConfig { rep: &mut self.states[i] };
        proof {
            assert forall|s: S|
                (*final(h.rep)).state_val() == state ==> state_index(
                    old(self).reps().update(i as int, *final(h.rep)),
                    s,
                ) < old(self).reps().len() by {
                if (*final(h.rep)).state_val() == state {
                    lemma_state_index_update(old(self).reps(), i as int, *final(h.rep), s);
                    assert(state_index(old(self).reps(), s) < old(self).reps().len());
                }
            }
        }
        h
    }

    /// Appends a global listener that will be notified of every
    /// successful firing on the built machine.
    pub fn on_transitioned(&mut self, f: L)
        ensures
            final(self).listeners() == old(self).listeners().push(f),
            final(self).reps() == old(self).reps(),
            final(self).spec_initial() == old(self).spec_initial(),
    {
        self.transition_event.add_event(f);
    }

    /// How many state representations the builder holds.
    pub fn state_count(&self) -> (n: usize)
        ensures
            n == self.reps().len(),
    {
        self.states.len()
    }

    /// Whether a representation for `state` exists.
    pub fn has_state(&self, state: S) -> (r: bool)
        ensures
            r == (state_index(self.reps(), state) < self.reps().len()),
    {
        let i = find_state_index(&self.states, state);
        i < self.states.len()
    }

    /// How many global listeners are registered.
    pub fn listener_count(&self) -> (n: usize)
        ensures
            n == self.listeners().len(),
    {
        self.transition_event.event_count()
    }

    /// Seals the configuration: consumes the builder and moves every
    /// representation, the context object and the listeners into a new
    /// machine, whose table is closed from then on.
    ///
    /// Sealing cannot race a live configuration handle — a handle
    /// borrows the builder, so the builder can only be consumed after
    /// every handle is gone — and therefore always succeeds.
    pub fn build(self, state_object: O) -> (r: Result<
        StateMachine<S, T, O, A, L>,
        StateMachineError<S, T>,
    >)
        requires
            self.wf(),
        ensures
            r matches Ok(m) && m.wf() && m.spec_state() == self.spec_initial() && m.reps()
                == self.reps() && m.spec_object() == state_object && m.listeners()
                == self.listeners(),
    {
        let machine = StateMachine::new(
            self.initial_state,
            self.states,
            state_object,
            self.transition_event,
        );
        proof {
            assert forall|s: S| state_index(machine.reps(), s) < machine.reps().len() by {
                assert(state_index(self.reps(), s) < self.reps().len());
            }
        }
        Ok(machine)
    }
}

} // verus!
