//! The sealed, executable machine and its firing protocol.

use crate::callback::all_notified;
use crate::callback::run_actions;
use crate::callback::Action;
use crate::callback::Listener;
use crate::domain::Symbol;
use crate::state_representation::find_state_index;
use crate::state_representation::lemma_state_index;
use crate::state_representation::state_index;
use crate::state_representation::StateRepresentation;
use crate::statemachine_error::StateMachineError;
use crate::transition::Transition;
use crate::transition_event::TransitionEventHandler;
use crate::trigger_behaviour::TriggerBehaviour;
use vstd::prelude::*;

verus! {

/// A finite state machine: the current state, the closed table of state
/// representations sealed at build time, the caller's context object,
/// and the global transition listeners.
///
/// A machine can only be made by a [`crate::builder::StateMachineBuilder`];
/// triggers are fired one at a time with [`StateMachine::fire`].
pub struct StateMachine<S, T, O, A, L> {
    current_state: S,
    state_representations: Vec<StateRepresentation<S, T, O, A>>,
    object: O,
    transition_event: TransitionEventHandler<L>,
}

impl<S: Symbol, T: Symbol, O, A: Action<S, T, O>, L: Listener<S, T>> StateMachine<
    S,
    T,
    O,
    A,
    L,
> {
    /// The current state.
    pub closed spec fn spec_state(self) -> S {
        self.current_state
    }

    /// The sealed table of state representations.
    pub closed spec fn reps(self) -> Seq<StateRepresentation<S, T, O, A>> {
        self.state_representations@
    }

    /// The context object.
    pub closed spec fn spec_object(self) -> O {
        self.object
    }

    /// The global listeners, in registration order.
    pub closed spec fn listeners(self) -> Seq<L> {
        self.transition_event.listeners()
    }

    /// The representation consulted for state `s`: the first entry of
    /// the table that represents `s`.
    pub open spec fn rep_for(self, s: S) -> StateRepresentation<S, T, O, A> {
        self.reps()[state_index(self.reps(), s)]
    }

    /// Every state has a representation in the table.  Construction
    /// guarantees this for every machine a builder hands out, and firing
    /// preserves it.
    pub open spec fn wf(self) -> bool {
        forall|s: S| state_index(self.reps(), s) < self.reps().len()
    }

    /// Whether the current state's rule table permits `trigger`.
    pub open spec fn permits(self, trigger: T) -> bool {
        self.rep_for(self.spec_state()).behaviours().contains_key(trigger)
    }

    /// The behaviour a permitted `trigger` resolves to.
    pub open spec fn behaviour_of(self, trigger: T) -> TriggerBehaviour<S, T> {
        self.rep_for(self.spec_state()).behaviours()[trigger]
    }

    /// The state a permitted firing ends in: the registered destination
    /// for a transitioning behaviour, the unchanged current state for an
    /// internal one.
    pub open spec fn destination_of(self, trigger: T) -> S {
        match self.behaviour_of(trigger) {
            TriggerBehaviour::Transitioning(b) => b.spec_destination(),
            TriggerBehaviour::Internal(_) => self.spec_state(),
        }
    }

    /// The transition value a permitted firing constructs and hands to
    /// every callback it runs.
    pub open spec fn transition_of(self, trigger: T) -> Transition<S, T> {
        Transition {
            source: self.spec_state(),
            destination: self.destination_of(trigger),
            trigger,
        }
    }

    /// The context object after a permitted firing.
    ///
    /// A transitioning firing runs the source state's exit actions and
    /// then the destination state's entry actions; an internal firing
    /// runs only the current state's internal actions for the trigger.
    pub open spec fn object_after(self, trigger: T) -> O {
        match self.behaviour_of(trigger) {
            TriggerBehaviour::Transitioning(_) => run_actions(
                self.rep_for(self.destination_of(trigger)).entries(),
                self.transition_of(trigger),
                run_actions(
                    self.rep_for(self.spec_state()).exits(),
                    self.transition_of(trigger),
                    self.spec_object(),
                ),
            ),
            TriggerBehaviour::Internal(_) => run_actions(
                self.rep_for(self.spec_state()).internals_for(trigger),
                self.transition_of(trigger),
                self.spec_object(),
            ),
        }
    }

    /// Only a builder makes a machine: it alone can establish that the
    /// table covers every state of the domain.
    pub(crate) fn new(
        initial_state: S,
        state_representations: Vec<StateRepresentation<S, T, O, A>>,
        object: O,
        transition_event: TransitionEventHandler<L>,
    ) -> (r: Self)
        ensures
            r.spec_state() == initial_state,
            r.reps() == state_representations@,
            r.spec_object() == object,
            r.listeners() == transition_event.listeners(),
    {
        Self { current_state: initial_state, state_representations, object, transition_event }
    }

    /// The current state, read-only.
    pub fn state(&self) -> (r: S)
        ensures
            r == self.spec_state(),
    {
        self.current_state
    }

    /// Reads the context object that went into the build.
    pub fn object(&self) -> (r: &O)
        ensures
            *r == self.spec_object(),
    {
        &self.object
    }

    /// Exclusive access to the context object between firings; nothing
    /// else about the machine can change through it.
    pub fn object_mut(&mut self) -> (r: &mut O)
        ensures
            *r == old(self).spec_object(),
            final(self).spec_object() == *final(r),
            final(self).spec_state() == old(self).spec_state(),
            final(self).reps() == old(self).reps(),
            final(self).listeners() == old(self).listeners(),
    {
        &mut self.object
    }

    /// Fires one trigger, the whole protocol in one synchronous call.
    ///
    /// When the current state does not permit the trigger, the error
    /// says so and the machine — state, context, table and listeners —
    /// is exactly as it was.  When it does, the firing resolves the
    /// behaviour, runs the callbacks in the specified order, moves the
    /// state, and notifies every global listener of the one transition.
    pub fn fire(&mut self, trigger: T) -> (r: Result<(), StateMachineError<S, T>>)
        requires
            old(self).wf(),
        ensures
            final(self).wf(),
            !old(self).permits(trigger) ==> r == Err::<(), StateMachineError<S, T>>(
                StateMachineError::TriggerNotPermitted {
                    state: old(self).spec_state(),
                    trigger,
                },
            ) && *final(self) == *old(self),
            old(self).permits(trigger) ==> r == Ok::<(), StateMachineError<S, T>>(())
                && final(self).spec_state() == old(self).destination_of(trigger)
                && final(self).spec_object() == old(self).object_after(trigger)
                && final(self).reps() == old(self).reps()
                && final(self).listeners() == all_notified(
                old(self).listeners(),
                old(self).transition_of(trigger),
            ),
    {
        self.fireone(trigger)
    }

    /// Processes a single trigger; `fire` is its only caller.
    fn fireone(&mut self, trigger: T) -> (r: Result<(), StateMachineError<S, T>>)
        requires
            old(self).wf(),
        ensures
            final(self).wf(),
            !old(self).permits(trigger) ==> r == Err::<(), StateMachineError<S, T>>(
                StateMachineError::TriggerNotPermitted {
                    state: old(self).spec_state(),
                    trigger,
                },
            ) && *final(self) == *old(self),
            old(self).permits(trigger) ==> r == Ok::<(), StateMachineError<S, T>>(())
                && final(self).spec_state() == old(self).destination_of(trigger)
                && final(self).spec_object() == old(self).object_after(trigger)
                && final(self).reps() == old(self).reps()
                && final(self).listeners() == all_notified(
                old(self).listeners(),
                old(self).transition_of(trigger),
            ),
    {
        let current_state = self.current_state;
        let ci = find_state_index(&self.state_representations, current_state);
        proof {
            assert(state_index(old(self).reps(), current_state) < old(self).reps().len());
            lemma_state_index(self.state_representations@, current_state);
        }
        let behaviour = match self.state_representations[ci].get_behaviour(trigger) {
            Ok(b) => b,
            Err(e) => {
                return Err(e);
            },
        };
        let transition = match behaviour {
            TriggerBehaviour::Transitioning(b) => {
                let destination = b.fire(current_state);
                let transition = Transition::new(current_state, trigger, destination);
                self.state_representations[ci].exit(&transition, &mut self.object);
                self.current_state = destination;
                let di = find_state_index(&self.state_representations, destination);
                proof {
                    assert(state_index(old(self).reps(), destination) < old(self).reps().len());
                    lemma_state_index(self.state_representations@, destination);
                }
                self.state_representations[di].enter(&transition, &mut self.object);
                transition
            },
            TriggerBehaviour::Internal(b) => {
                let destination = b.fire(current_state);
                let transition = Transition::new(current_state, trigger, destination);
                self.state_representations[ci].fire_internal_actions(
                    &transition,
                    &mut self.object,
                );
                transition
            },
        };
        self.transition_event.fire_events(&transition);
        Ok(())
    }
}

/// A state that was never configured permits no trigger at all: its
/// rule table is empty, so `fire`'s contract gives, for every trigger,
/// the trigger-not-permitted error and an unchanged machine — never the
/// state-not-configured error, since construction gave every state of
/// the domain a representation.
pub proof fn lemma_unconfigured_state_rejects_all<S: Symbol, T: Symbol, O, A: Action<S, T, O>, L: Listener<
    S,
    T,
>>(m: StateMachine<S, T, O, A, L>, trigger: T)
    requires
        m.rep_for(m.spec_state()).behaviours() == Map::<T, TriggerBehaviour<S, T>>::empty(),
    ensures
        !m.permits(trigger),
{
}

/// Determinism: firing one trigger from one machine value resolves one
/// transition, one destination and one context outcome.  Two machines
/// in the same state with the same tables and context agree on all of
/// them, so equal firings produce equal side effects.
pub proof fn lemma_fire_deterministic<S: Symbol, T: Symbol, O, A: Action<S, T, O>, L: Listener<S, T>>(
    m1: StateMachine<S, T, O, A, L>,
    m2: StateMachine<S, T, O, A, L>,
    trigger: T,
)
    requires
        m1 == m2,
    ensures
        m1.permits(trigger) == m2.permits(trigger),
        m1.transition_of(trigger) == m2.transition_of(trigger),
        m1.destination_of(trigger) == m2.destination_of(trigger),
        m1.object_after(trigger) == m2.object_after(trigger),
{
}

/// Ordering: when the trigger resolves to the registered transitioning
/// behaviour towards `destination`, the firing applies the source
/// state's exit actions to the context first, and the destination
/// state's entry actions — looked up after the state moved — to their
/// result; `fire`'s contract then notifies the global listeners of the
/// same transition, after both, and ends in `destination`
/// unconditionally.
pub proof fn lemma_transitioning_order<S: Symbol, T: Symbol, O, A: Action<S, T, O>, L: Listener<
    S,
    T,
>>(m: StateMachine<S, T, O, A, L>, trigger: T, destination: S)
    requires
        m.permits(trigger),
        m.behaviour_of(trigger) == TriggerBehaviour::spec_transitioning(trigger, destination),
    ensures
        m.destination_of(trigger) == destination,
        m.transition_of(trigger) == (Transition { source: m.spec_state(), destination, trigger }),
        m.object_after(trigger) == run_actions(
            m.rep_for(destination).entries(),
            m.transition_of(trigger),
            run_actions(
                m.rep_for(m.spec_state()).exits(),
                m.transition_of(trigger),
                m.spec_object(),
            ),
        ),
{
    crate::trigger_behaviour::lemma_spec_transitioning::<S, T>(trigger, destination);
}

/// Internal transitions: when the trigger resolves to the registered
/// internal behaviour, the firing keeps the current state, and the
/// context outcome is the fold of that trigger's internal actions
/// alone — no entry action and no exit action of any state takes part
/// in it.  `fire`'s contract still notifies every global listener.
pub proof fn lemma_internal_firing<S: Symbol, T: Symbol, O, A: Action<S, T, O>, L: Listener<S, T>>(
    m: StateMachine<S, T, O, A, L>,
    trigger: T,
)
    requires
        m.permits(trigger),
        m.behaviour_of(trigger) == TriggerBehaviour::<S, T>::spec_internal(trigger),
    ensures
        m.destination_of(trigger) == m.spec_state(),
        m.object_after(trigger) == run_actions(
            m.rep_for(m.spec_state()).internals_for(trigger),
            m.transition_of(trigger),
            m.spec_object(),
        ),
{
    crate::trigger_behaviour::lemma_spec_internal::<S, T>(trigger);
}

/// Re-entry: a transitioning behaviour whose destination equals the
/// current state is a deliberate re-entry — unlike an internal firing
/// it runs the state's exit actions and then its entry actions, on the
/// same representation.
pub proof fn lemma_reentry_firing<S: Symbol, T: Symbol, O, A: Action<S, T, O>, L: Listener<S, T>>(
    m: StateMachine<S, T, O, A, L>,
    trigger: T,
)
    requires
        m.permits(trigger),
        m.behaviour_of(trigger) == TriggerBehaviour::spec_transitioning(trigger, m.spec_state()),
    ensures
        m.destination_of(trigger) == m.spec_state(),
        m.transition_of(trigger).spec_is_reentry(),
        m.object_after(trigger) == run_actions(
            m.rep_for(m.spec_state()).entries(),
            m.transition_of(trigger),
            run_actions(
                m.rep_for(m.spec_state()).exits(),
                m.transition_of(trigger),
                m.spec_object(),
            ),
        ),
{
    crate::trigger_behaviour::lemma_spec_transitioning::<S, T>(trigger, m.spec_state());
}

} // verus!
