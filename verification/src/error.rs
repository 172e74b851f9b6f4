//! What can go wrong while events are applied to a world.
use vstd::prelude::*;

verus! {

/// Why an event was refused.
#[derive(Clone, Copy, Debug, PartialEq, Eq, Structural)]
pub enum RemoteError {
    /// A name or a namespace in the event is not UTF-8.
    InvalidUtf8,
    /// The event is about a contract, and the resource under its selector is none.
    NotAContract,
}

} // verus!
