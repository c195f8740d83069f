use stateless_rs::trigger_behaviour::Internal;
use stateless_rs::trigger_behaviour::Transitioning;

#[derive(PartialEq, Eq, Hash, Clone, Copy, Debug)]
enum State {
    State1,
    State2,
}

#[derive(PartialEq, Eq, Hash, Clone, Copy, Debug)]
enum Trigger {
    Trig,
}

#[test]
fn transitioning_trigger_sends_to_destination() {
    let b = Transitioning::new(Trigger::Trig, State::State1);
    assert_eq!(State::State1, b.fire(State::State1));
    assert_eq!(State::State1, b.fire(State::State2));
}

#[test]
fn internal_trigger_sends_to_source() {
    let b = Internal::new(Trigger::Trig);
    assert_eq!(State::State1, b.fire(State::State1));
    assert_eq!(State::State2, b.fire(State::State2));
}
