use stateless_rs::Action;
use stateless_rs::Listener;
use stateless_rs::StateDomain;
use stateless_rs::StateMachineBuilder;
use stateless_rs::StateMachineError;
use stateless_rs::Symbol;
use stateless_rs::state_representation::StateRepresentation;
use stateless_rs::trigger_behaviour::Transitioning;
use stateless_rs::trigger_behaviour::TriggerBehaviour;
use stateless_rs::Transition;
use stateless_rs::TransitionEventHandler;
use std::sync::Arc;
use std::sync::Mutex;

#[derive(PartialEq, Eq, Hash, Clone, Copy, Debug)]
enum State {
    State1,
    State2,
}

#[derive(PartialEq, Eq, Hash, Clone, Copy, Debug)]
enum Trigger {
    Trig,
    Trig2,
}

impl Symbol for State {
    fn same(&self, other: &Self) -> bool {
        self == other
    }
}

impl Symbol for Trigger {
    fn same(&self, other: &Self) -> bool {
        self == other
    }
}

impl StateDomain for State {
    fn domain() -> vstd::seq::Seq<State> {
        unreachable!()
    }

    fn domain_full(_: State) {}

    fn enumerate() -> Vec<State> {
        vec![State::State1, State::State2]
    }
}

enum IntAction {
    Add(i32),
    Log(i32, Arc<Mutex<Vec<i32>>>),
}

impl Action<State, Trigger, i32> for IntAction {
    fn effect(&self, _t: Transition<State, Trigger>, _obj: i32) -> i32 {
        unreachable!()
    }

    fn invoke(&self, _t: &Transition<State, Trigger>, obj: &mut i32) {
        match self {
            IntAction::Add(n) => *obj += n,
            IntAction::Log(mark, log) => log.lock().unwrap().push(*mark),
        }
    }
}

struct NoListener;

impl Listener<State, Trigger> for NoListener {
    fn notified(self, _t: Transition<State, Trigger>) -> Self {
        self
    }

    fn notify(&mut self, _t: &Transition<State, Trigger>) {}
}

struct LogListener {
    mark: i32,
    log: Arc<Mutex<Vec<i32>>>,
}

impl Listener<State, Trigger> for LogListener {
    fn notified(self, _t: Transition<State, Trigger>) -> Self {
        self
    }

    fn notify(&mut self, _t: &Transition<State, Trigger>) {
        self.log.lock().unwrap().push(self.mark);
    }
}

fn two_state_machine() -> stateless_rs::StateMachine<State, Trigger, i32, IntAction, NoListener> {
    let mut builder =
        StateMachineBuilder::<State, Trigger, i32, IntAction, NoListener>::new(State::State1);
    builder.config(State::State1).permit(Trigger::Trig, State::State2);
    builder
        .config(State::State2)
        .on_entry(IntAction::Add(10))
        .internal_transition(Trigger::Trig2, IntAction::Add(100));
    builder.build(0).unwrap()
}

#[test]
fn same_firings_give_same_outcomes() {
    let mut first = two_state_machine();
    let mut second = two_state_machine();
    for machine in [&mut first, &mut second] {
        machine.fire(Trigger::Trig).unwrap();
        machine.fire(Trigger::Trig2).unwrap();
        let rejected = machine.fire(Trigger::Trig);
        assert!(rejected.is_err());
    }
    assert_eq!(first.state(), second.state());
    assert_eq!(*first.object(), *second.object());
    assert_eq!(*first.object(), 110);
}

#[test]
fn exit_entry_and_listeners_run_in_order() {
    let log = Arc::new(Mutex::new(Vec::new()));
    let mut builder =
        StateMachineBuilder::<State, Trigger, i32, IntAction, LogListener>::new(State::State1);
    builder
        .config(State::State1)
        .on_exit(IntAction::Log(1, Arc::clone(&log)))
        .on_exit(IntAction::Log(2, Arc::clone(&log)))
        .permit(Trigger::Trig, State::State2);
    builder
        .config(State::State2)
        .on_entry(IntAction::Log(3, Arc::clone(&log)))
        .on_entry(IntAction::Log(4, Arc::clone(&log)));
    builder.on_transitioned(LogListener { mark: 5, log: Arc::clone(&log) });
    builder.on_transitioned(LogListener { mark: 6, log: Arc::clone(&log) });

    let mut machine = builder.build(0).unwrap();
    machine.fire(Trigger::Trig).unwrap();

    assert_eq!(machine.state(), State::State2);
    assert_eq!(*log.lock().unwrap(), vec![1, 2, 3, 4, 5, 6]);
}

#[test]
fn reentry_runs_exit_and_entry_actions() {
    let mut builder =
        StateMachineBuilder::<State, Trigger, i32, IntAction, NoListener>::new(State::State1);
    builder
        .config(State::State1)
        .on_exit(IntAction::Add(1))
        .on_entry(IntAction::Add(2))
        .permit(Trigger::Trig, State::State1);

    let mut machine = builder.build(0).unwrap();
    machine.fire(Trigger::Trig).unwrap();

    assert_eq!(machine.state(), State::State1);
    assert_eq!(*machine.object(), 3);
}

#[test]
fn internal_firing_skips_entry_and_exit_but_notifies_listeners() {
    let log = Arc::new(Mutex::new(Vec::new()));
    let mut builder =
        StateMachineBuilder::<State, Trigger, i32, IntAction, LogListener>::new(State::State1);
    builder
        .config(State::State1)
        .on_exit(IntAction::Add(1))
        .on_entry(IntAction::Add(2))
        .internal_transition(Trigger::Trig, IntAction::Add(100));
    builder.on_transitioned(LogListener { mark: 7, log: Arc::clone(&log) });

    let mut machine = builder.build(0).unwrap();
    machine.fire(Trigger::Trig).unwrap();

    assert_eq!(machine.state(), State::State1);
    assert_eq!(*machine.object(), 100, "only the internal action ran");
    assert_eq!(*log.lock().unwrap(), vec![7], "the global listener was notified once");
}

#[test]
fn rejected_trigger_leaves_state_and_context_unchanged() {
    let mut machine = two_state_machine();
    let result = machine.fire(Trigger::Trig2);
    assert_eq!(
        result.unwrap_err(),
        StateMachineError::TriggerNotPermitted {
            state: State::State1,
            trigger: Trigger::Trig2
        }
    );
    assert_eq!(machine.state(), State::State1);
    assert_eq!(*machine.object(), 0);
}

#[test]
fn last_registration_for_a_trigger_wins() {
    let mut builder =
        StateMachineBuilder::<State, Trigger, i32, IntAction, NoListener>::new(State::State1);
    builder
        .config(State::State1)
        .permit(Trigger::Trig, State::State2)
        .permit(Trigger::Trig, State::State1);

    let mut machine = builder.build(0).unwrap();
    machine.fire(Trigger::Trig).unwrap();
    assert_eq!(machine.state(), State::State1);
}

#[test]
fn context_can_be_changed_between_firings() {
    let mut machine = two_state_machine();
    *machine.object_mut() = 7;
    machine.fire(Trigger::Trig).unwrap();
    assert_eq!(*machine.object(), 17);
}

#[test]
fn transition_reports_reentry() {
    let reentry = Transition::new(State::State1, Trigger::Trig, State::State1);
    assert!(reentry.is_reentry());
    let moving = Transition::new(State::State1, Trigger::Trig, State::State2);
    assert!(!moving.is_reentry());
}

#[test]
fn default_handler_has_no_events() {
    let handler = TransitionEventHandler::<NoListener>::default();
    assert_eq!(handler.event_count(), 0);
}

#[test]
fn config_handle_reports_its_state() {
    let mut builder =
        StateMachineBuilder::<State, Trigger, i32, IntAction, NoListener>::new(State::State1);
    assert_eq!(builder.config(State::State2).state(), State::State2);
}

#[test]
fn representation_runs_entry_and_exit_actions_in_order() {
    let mut rep = StateRepresentation::<State, Trigger, i32, IntAction>::new(State::State1);
    rep.add_entry_action(IntAction::Add(1));
    rep.add_entry_action(IntAction::Add(2));
    rep.add_exit_action(IntAction::Add(10));

    let transition = Transition::new(State::State1, Trigger::Trig, State::State2);
    let mut object = 0;
    rep.enter(&transition, &mut object);
    assert_eq!(object, 3);
    rep.exit(&transition, &mut object);
    assert_eq!(object, 13);
}

#[test]
fn registered_behaviour_can_be_looked_up() {
    let mut rep = StateRepresentation::<State, Trigger, i32, IntAction>::new(State::State1);
    rep.add_trigger_behaviour(
        Trigger::Trig,
        TriggerBehaviour::Transitioning(Transitioning::new(Trigger::Trig, State::State2)),
    );
    let behaviour = rep.get_behaviour(Trigger::Trig).unwrap();
    match behaviour {
        TriggerBehaviour::Transitioning(b) => assert_eq!(b.fire(State::State1), State::State2),
        TriggerBehaviour::Internal(_) => panic!("expected a transitioning behaviour"),
    }
}
