//! The errors the engine reports.

use vstd::prelude::*;

verus! {

/// Everything that can go wrong while building or driving a machine.
///
/// All errors are returned as values; the engine retries nothing and the
/// verified functions never panic.
#[derive(Clone, Copy, Debug, PartialEq, Eq)]
pub enum StateMachineError<S, T> {
    /// The current state has no representation.  Construction guarantees
    /// a representation for every state of the domain, so this is kept
    /// only for defensive lookups and is never produced here.
    StateNotConfigured { state: S },
    /// The state's rule table has no behaviour for the fired trigger.
    /// The machine and its context are left unchanged.
    TriggerNotPermitted { state: S, trigger: T },
    /// A configuration handle for the state was still alive when the
    /// builder was sealed.  Configuration handles borrow the builder, so
    /// sealing a builder with a live handle is rejected at compile time
    /// and this value is never produced here.
    ConfigStillInUse { state: S },
    /// Reserved fallback; never produced.
    Unknown,
}

} // verus!
