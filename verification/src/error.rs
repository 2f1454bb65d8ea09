use vstd::prelude::*;

verus! {

/// The failure channels the engine distinguishes. A hard abort of a run
/// surfaces one of these to the run's caller.
#[derive(Debug)]
pub enum Error {
    /// A node's own work failed and the failure was not converted into an
    /// outcome by its classification phase.
    NodeExecution(String),
    /// A transition was requested that the graph cannot perform.
    InvalidTransition(String),
    /// The execution context was used in a way it does not support.
    Context(String),
    /// A value could not be encoded or decoded at the boundary.
    Serialization(String),
    /// Reading or writing outside the process failed.
    Io(String),
    /// Any failure that fits no other variant.
    Other(String),
}

impl Error {
    /// The human-readable description carried by the error.
    pub fn message(&self) -> (r: &String)
        ensures
            r@ == self.message_spec(),
    {
        match self {
            Error::NodeExecution(m) => m,
            Error::InvalidTransition(m) => m,
            Error::Context(m) => m,
            Error::Serialization(m) => m,
            Error::Io(m) => m,
            Error::Other(m) => m,
        }
    }

    /// The description carried by the error, as a sequence of characters.
    pub open spec fn message_spec(&self) -> Seq<char> {
        match self {
            Error::NodeExecution(m) => m@,
            Error::InvalidTransition(m) => m@,
            Error::Context(m) => m@,
            Error::Serialization(m) => m@,
            Error::Io(m) => m@,
            Error::Other(m) => m@,
        }
    }
}

} // verus!
