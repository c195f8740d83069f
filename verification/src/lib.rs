//! A generic finite-state-machine engine.
//!
//! A caller declares a finite state domain and a trigger type, attaches
//! per-state transition rules and lifecycle callbacks through a builder,
//! then seals the configuration into a [`StateMachine`] that is driven by
//! firing triggers one at a time.  The firing protocol — trigger
//! resolution, the exit / state-update / entry ordering, in-place
//! "internal" transitions, and the global transition listeners — is
//! specified by contracts and verified.

pub mod builder;
pub mod callback;
pub mod domain;
pub mod state_config;
pub mod state_machine;
pub mod state_representation;
pub mod statemachine_error;
pub mod transition;
pub mod transition_event;
pub mod trigger_behaviour;

pub use builder::StateMachineBuilder;
pub use callback::Action;
pub use callback::Listener;
pub use domain::StateDomain;
pub use domain::Symbol;
pub use state_config::StateConfig;
pub use state_machine::StateMachine;
pub use statemachine_error::StateMachineError;
pub use transition::Transition;
pub use transition_event::TransitionEventHandler;
