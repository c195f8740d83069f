//! The interface a caller's state and trigger types must satisfy.
//!
//! The machine is generic over caller-defined value types.  The engine
//! needs two things from them: a decidable equality test, and — for
//! states only — an enumeration of the whole domain, so that every state
//! can be given a representation before any trigger is fired.

use vstd::prelude::*;

verus! {

/// A caller-defined state or trigger value: a plain copyable symbol
/// whose equality can be decided at run time.
///
/// An implementation is typically a field-less enum; `same` is then an
/// ordinary derived-equality test.  The contract on `same` is what ties
/// the run-time comparison to equality in specifications.
pub trait Symbol: Sized + Copy {
    /// Decides equality of two symbols.
    fn same(&self, other: &Self) -> (r: bool)
        ensures
            r == (*self == *other),
    ;
}

/// A state type whose whole domain is finite and enumerable.
///
/// The builder creates one state representation per element of
/// [`StateDomain::domain`] up front, so a machine can transition into a
/// state the caller never explicitly configured.
pub trait StateDomain: Symbol {
    /// The full domain of states, in enumeration order.
    spec fn domain() -> Seq<Self>;

    /// Every value of the type lies in the domain.
    proof fn domain_full(x: Self)
        ensures
            Self::domain().contains(x),
    ;

    /// Produces the domain as a vector, in enumeration order.
    fn enumerate() -> (v: Vec<Self>)
        ensures
            v@ == Self::domain(),
    ;
}

} // verus!
