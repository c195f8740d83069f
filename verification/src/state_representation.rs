//! The per-state record the machine consults when a trigger fires.

use crate::callback::run_actions;
use crate::callback::Action;
use crate::domain::Symbol;
use crate::statemachine_error::StateMachineError;
use crate::transition::Transition;
use crate::trigger_behaviour::TriggerBehaviour;
use vstd::prelude::*;

verus! {

/// The rule table of registered trigger/behaviour pairs, read as a map.
/// A pair registered later overrides an earlier pair for the same
/// trigger, so the map is built from the front of the sequence with each
/// later pair inserted over the earlier ones.
spec fn pairs_map<K, V>(s: Seq<(K, V)>) -> Map<K, V>
    decreases s.len(),
{
    if s.len() == 0 {
        Map::empty()
    } else {
        pairs_map(s.drop_last()).insert(s.last().0, s.last().1)
    }
}

/// The actions among `pairs` registered for trigger `t`, in registration
/// order.
pub open spec fn selected<T, A>(pairs: Seq<(T, A)>, t: T) -> Seq<A>
    decreases pairs.len(),
{
    if pairs.len() == 0 {
        Seq::empty()
    } else if pairs.last().0 == t {
        selected(pairs.drop_last(), t).push(pairs.last().1)
    } else {
        selected(pairs.drop_last(), t)
    }
}

/// Registering one more pair keeps a trigger's selection unchanged,
/// unless the pair is for that trigger: then it appends its action.
pub proof fn lemma_selected_push<T, A>(pairs: Seq<(T, A)>, p: (T, A), t: T)
    ensures
        selected(pairs.push(p), t) == if p.0 == t {
            selected(pairs, t).push(p.1)
        } else {
            selected(pairs, t)
        },
{
    assert(pairs.push(p).drop_last() =~= pairs);
}

/// One state's record: the behaviour registered for each permitted
/// trigger, and the ordered entry, exit and (trigger-keyed) internal
/// action lists.
///
/// One such record exists for every state of the domain before any
/// trigger may be fired; an unconfigured state simply permits no
/// triggers and has no actions.
pub struct StateRepresentation<S, T, O, A> {
    state: S,
    trigger_behaviours: Vec<(T, TriggerBehaviour<S, T>)>,
    entry_actions: Vec<A>,
    exit_actions: Vec<A>,
    internal_actions: Vec<(T, A)>,
    object: core::marker::PhantomData<O>,
}

impl<S, T, O, A> StateRepresentation<S, T, O, A> {
    /// The state this record represents; fixed at creation.
    pub closed spec fn state_val(self) -> S {
        self.state
    }

    /// The rule table: at most one behaviour per trigger, the last
    /// registration for a trigger winning.
    pub closed spec fn behaviours(self) -> Map<T, TriggerBehaviour<S, T>> {
        pairs_map(self.trigger_behaviours@)
    }

    /// The entry actions, in registration order.
    pub closed spec fn entries(self) -> Seq<A> {
        self.entry_actions@
    }

    /// The exit actions, in registration order.
    pub closed spec fn exits(self) -> Seq<A> {
        self.exit_actions@
    }

    /// The internal actions with the trigger each was registered for, in
    /// registration order.
    pub closed spec fn internals(self) -> Seq<(T, A)> {
        self.internal_actions@
    }

    /// The internal actions registered for trigger `t`, in registration
    /// order.
    pub open spec fn internals_for(self, t: T) -> Seq<A> {
        selected(self.internals(), t)
    }
}

impl<S: Symbol, T: Symbol, O, A: Action<S, T, O>> StateRepresentation<S, T, O, A> {
    pub fn new(state: S) -> (r: Self)
        ensures
            r.state_val() == state,
            r.behaviours() == Map::<T, TriggerBehaviour<S, T>>::empty(),
            r.entries() == Seq::<A>::empty(),
            r.exits() == Seq::<A>::empty(),
            r.internals() == Seq::<(T, A)>::empty(),
    {
        Self {
            state,
            trigger_behaviours: Vec::new(),
            entry_actions: Vec::new(),
            exit_actions: Vec::new(),
            internal_actions: Vec::new(),
            object: core::marker::PhantomData,
        }
    }

    pub fn state(&self) -> (r: S)
        ensures
            r == self.state_val(),
    {
        self.state
    }

    /// How many entry actions are registered.
    pub fn entry_action_count(&self) -> (n: usize)
        ensures
            n == self.entries().len(),
    {
        self.entry_actions.len()
    }

    /// How many exit actions are registered.
    pub fn exit_action_count(&self) -> (n: usize)
        ensures
            n == self.exits().len(),
    {
        self.exit_actions.len()
    }

    /// Registers `behaviour` for `trigger`, overwriting any earlier
    /// registration for that trigger.
    pub fn add_trigger_behaviour(&mut self, trigger: T, behaviour: TriggerBehaviour<S, T>)
        ensures
            final(self).state_val() == old(self).state_val(),
            final(self).behaviours() == old(self).behaviours().insert(trigger, behaviour),
            final(self).entries() == old(self).entries(),
            final(self).exits() == old(self).exits(),
            final(self).internals() == old(self).internals(),
    {
        self.trigger_behaviours.push((trigger, behaviour));
        proof {
            assert(self.trigger_behaviours@.drop_last() =~= old(self).trigger_behaviours@);
        }
    }

    /// Appends an entry action; actions accumulate, they never replace.
    pub fn add_entry_action(&mut self, f: A)
        ensures
            final(self).state_val() == old(self).state_val(),
            final(self).behaviours() == old(self).behaviours(),
            final(self).entries() == old(self).entries().push(f),
            final(self).exits() == old(self).exits(),
            final(self).internals() == old(self).internals(),
    {
        self.entry_actions.push(f);
    }

    /// Appends an exit action; actions accumulate, they never replace.
    pub fn add_exit_action(&mut self, f: A)
        ensures
            final(self).state_val() == old(self).state_val(),
            final(self).behaviours() == old(self).behaviours(),
            final(self).entries() == old(self).entries(),
            final(self).exits() == old(self).exits().push(f),
            final(self).internals() == old(self).internals(),
    {
        self.exit_actions.push(f);
    }

    /// Appends an internal action for `trigger`; actions accumulate,
    /// they never replace.
    pub fn add_internal_action(&mut self, trigger: T, f: A)
        ensures
            final(self).state_val() == old(self).state_val(),
            final(self).behaviours() == old(self).behaviours(),
            final(self).entries() == old(self).entries(),
            final(self).exits() == old(self).exits(),
            final(self).internals() == old(self).internals().push((trigger, f)),
    {
        self.internal_actions.push((trigger, f));
    }

    /// Looks a trigger up in the rule table: the sole way to learn
    /// whether the trigger is permitted from this state.
    pub fn get_behaviour(&self, trigger: T) -> (r: Result<
        TriggerBehaviour<S, T>,
        StateMachineError<S, T>,
    >)
        ensures
            match r {
                Ok(b) => self.behaviours().contains_key(trigger) && b == self.behaviours()[
                    trigger
                ],
                Err(e) => !self.behaviours().contains_key(trigger) && e == (
                StateMachineError::TriggerNotPermitted { state: self.state_val(), trigger }),
            },
    {
        let n = self.trigger_behaviours.len();
        proof {
            assert(self.trigger_behaviours@.take(n as int) =~= self.trigger_behaviours@);
        }
        let mut i = n;
        while i > 0
            invariant
                i <= n,
                n == self.trigger_behaviours@.len(),
                self.behaviours().contains_key(trigger) == pairs_map(
                    self.trigger_behaviours@.take(i as int),
                ).contains_key(trigger),
                self.behaviours().contains_key(trigger) ==> self.behaviours()[trigger]
                    == pairs_map(self.trigger_behaviours@.take(i as int))[trigger],
            decreases i,
        {
            i = i - 1;
            proof {
                assert(self.trigger_behaviours@.take(i + 1).drop_last() =~= self
                    .trigger_behaviours@.take(i as int));
            }
            let pair = &self.trigger_behaviours[i];
            if pair.0.same(&trigger) {
                return Ok(pair.1);
            }
        }
        Err(StateMachineError::TriggerNotPermitted { state: self.state, trigger })
    }

    /// Runs every entry action in registration order, each with
    /// exclusive access to the context for its own invocation only.
    pub fn enter(&self, transition: &Transition<S, T>, state_object: &mut O)
        ensures
            *final(state_object) == run_actions(
                self.entries(),
                *transition,
                *old(state_object),
            ),
    {
        run_action_list(&self.entry_actions, transition, state_object);
    }

    /// Runs every exit action in registration order, each with exclusive
    /// access to the context for its own invocation only.
    pub fn exit(&self, transition: &Transition<S, T>, state_object: &mut O)
        ensures
            *final(state_object) == run_actions(self.exits(), *transition, *old(state_object)),
    {
        run_action_list(&self.exit_actions, transition, state_object);
    }

    /// Runs the internal actions registered for the transition's
    /// trigger, in registration order; actions registered for other
    /// triggers do not run.
    pub fn fire_internal_actions(&self, transition: &Transition<S, T>, state_object: &mut O)
        ensures
            *final(state_object) == run_actions(
                self.internals_for(transition.trigger),
                *transition,
                *old(state_object),
            ),
    {
        let n = self.internal_actions.len();
        for i in 0..n
            invariant
                n == self.internal_actions@.len(),
                *state_object == run_actions(
                    selected(self.internal_actions@.take(i as int), transition.trigger),
                    *transition,
                    *old(state_object),
                ),
        {
            proof {
                assert(self.internal_actions@.take(i + 1) =~= self.internal_actions@.take(
                    i as int,
                ).push(self.internal_actions@[i as int]));
                lemma_selected_push(
                    self.internal_actions@.take(i as int),
                    self.internal_actions@[i as int],
                    transition.trigger,
                );
            }
            let pair = &self.internal_actions[i];
            if pair.0.same(&transition.trigger) {
                proof {
                    let run = selected(
                        self.internal_actions@.take(i as int),
                        transition.trigger,
                    );
                    assert(run.push(self.internal_actions@[i as int].1).drop_last() =~= run);
                }
                pair.1.invoke(transition, state_object);
            }
        }
        proof {
            assert(self.internal_actions@.take(n as int) =~= self.internal_actions@);
        }
    }
}

/// The position of the first representation for state `s` in `reps`,
/// or `reps.len()` when no representation for `s` is there.
pub open spec fn state_index<S, T, O, A>(
    reps: Seq<StateRepresentation<S, T, O, A>>,
    s: S,
) -> int
    decreases reps.len(),
{
    if reps.len() == 0 {
        0
    } else if reps.first().state_val() == s {
        0
    } else {
        1 + state_index(reps.drop_first(), s)
    }
}

/// What `state_index` finds: a position in range, holding the first
/// representation for `s` when one exists.
pub proof fn lemma_state_index<S, T, O, A>(reps: Seq<StateRepresentation<S, T, O, A>>, s: S)
    ensures
        0 <= state_index(reps, s) <= reps.len(),
        state_index(reps, s) < reps.len() ==> reps[state_index(reps, s)].state_val() == s,
        forall|j: int| 0 <= j < state_index(reps, s) ==> reps[j].state_val() != s,
    decreases reps.len(),
{
    if reps.len() > 0 && reps.first().state_val() != s {
        lemma_state_index(reps.drop_first(), s);
        assert(forall|j: int|
            1 <= j < state_index(reps, s) ==> reps[j] == reps.drop_first()[j - 1]);
    }
}

/// Replacing a representation by one for the same state moves no
/// state's position in the table.
pub proof fn lemma_state_index_update<S, T, O, A>(
    reps: Seq<StateRepresentation<S, T, O, A>>,
    i: int,
    rep: StateRepresentation<S, T, O, A>,
    s: S,
)
    requires
        0 <= i < reps.len(),
        rep.state_val() == reps[i].state_val(),
    ensures
        state_index(reps.update(i, rep), s) == state_index(reps, s),
    decreases reps.len(),
{
    let updated = reps.update(i, rep);
    if i == 0 {
        assert(updated.first().state_val() == reps.first().state_val());
        if reps.first().state_val() != s {
            assert(updated.drop_first() =~= reps.drop_first());
        }
    } else {
        assert(updated.first() == reps.first());
        if reps.first().state_val() != s {
            assert(updated.drop_first() =~= reps.drop_first().update(i - 1, rep));
            lemma_state_index_update(reps.drop_first(), i - 1, rep, s);
        }
    }
}

/// Finds the first representation for state `s`, scanning in order.
pub(crate) fn find_state_index<S: Symbol, T: Symbol, O, A: Action<S, T, O>>(
    reps: &Vec<StateRepresentation<S, T, O, A>>,
    s: S,
) -> (i: usize)
    ensures
        i == state_index(reps@, s),
{
    let n = reps.len();
    let mut i: usize = 0;
    while i < n
        invariant
            0 <= i <= n,
            n == reps@.len(),
            forall|j: int| 0 <= j < i ==> reps@[j].state_val() != s,
        decreases n - i,
    {
        if reps[i].state().same(&s) {
            proof {
                lemma_state_index(reps@, s);
                assert(i == state_index(reps@, s));
            }
            return i;
        }
        i = i + 1;
    }
    proof {
        lemma_state_index(reps@, s);
        assert(i == state_index(reps@, s));
    }
    i
}

/// Runs `actions` in order on `state_object`, each action acquiring the
/// context exclusively for its own invocation.
fn run_action_list<S: Symbol, T: Symbol, O, A: Action<S, T, O>>(
    actions: &Vec<A>,
    transition: &Transition<S, T>,
    state_object: &mut O,
)
    ensures
        *final(state_object) == run_actions(actions@, *transition, *old(state_object)),
{
    let n = actions.len();
    for i in 0..n
        invariant
            n == actions@.len(),
            *state_object == run_actions(
                actions@.take(i as int),
                *transition,
                *old(state_object),
            ),
    {
        proof {
            crate::callback::lemma_run_actions_step(
                actions@,
                i as int,
                *transition,
                *old(state_object),
            );
        }
        actions[i].invoke(transition, state_object);
    }
    proof {
        assert(actions@.take(n as int) =~= actions@);
    }
}

} // verus!
