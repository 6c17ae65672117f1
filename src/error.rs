use vstd::prelude::*;

verus! {

/// Why an operation of the hub was refused.
#[derive(Clone, Copy, Debug, PartialEq, Eq, Structural)]
pub enum HubError {
    /// The identifier names nothing where something was required.
    NotFound,
    /// A task with that identifier exists already.
    AlreadyExists,
    /// The state machine has no such edge from the current state.
    InvalidTransition,
    /// The synchronous surface, which serves no request.
    UnsupportedOperation,
}

} // verus!
