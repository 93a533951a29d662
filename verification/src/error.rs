//! Error type shared by every fallible operation of the driver.

use vstd::prelude::*;

verus! {

/// The class of a driver error.
///
/// Codec problems (`ReadError`, `WriteError`, `SerializeError`) are local to
/// one request; `ConnectionError` is fatal to a connection; `EventLoopError`
/// covers reactor-level conditions such as an exhausted stream-id space;
/// `ClusterError` covers cluster-level conditions such as connecting twice.
#[derive(Clone, Copy, Debug, PartialEq, Eq, Structural)]
pub enum RCErrorType {
    ReadError,
    WriteError,
    SerializeError,
    ConnectionError,
    NoDataError,
    GenericError,
    IOError,
    EventLoopError,
    ClusterError,
}

/// An error: a class together with a human-readable description.
#[derive(Clone, Debug)]
pub struct RCError {
    pub kind: RCErrorType,
    pub desc: String,
}

impl RCError {
    /// Build an error of the given class.
    pub fn new(msg: &str, kind: RCErrorType) -> (r: RCError)
        ensures
            r.kind == kind,
            r.desc@ == msg@,
    {
        RCError { kind, desc: msg.to_owned() }
    }

    /// The description the error was built with.
    pub fn description(&self) -> (r: &str)
        ensures
            r@ == self.desc@,
    {
        self.desc.as_str()
    }
}

/// Result alias used throughout the driver.
pub type RCResult<T> = Result<T, RCError>;

} // verus!
