//! The interface between the container and the types it instantiates.

use vstd::prelude::*;

use crate::ptr::SomePtr;

verus! {

/// Implemented by the payload type a container manages.  When a transient
/// binding is resolved, the container first resolves the binding's declared
/// dependencies, then hands their pointers to [`Injectable::construct`] to
/// build the instance; `implementation` names the concrete type the binding
/// was made with.  Construction itself is total: only dependency resolution
/// can fail.
pub trait Injectable: Sized {
    /// Combines the resolved dependency pointers into an instance of the
    /// named concrete type.
    fn construct(implementation: &str, dependencies: Vec<SomePtr>) -> Self;
}

} // verus!
