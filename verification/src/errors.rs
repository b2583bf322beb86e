//! Error taxonomy of the runtime.
//!
//! Descriptor and instantiation failures are surfaced synchronously to the
//! caller; per-node runtime failures terminate only the runner they hit.

use vstd::prelude::*;

verus! {

/// What went wrong, without the human-readable detail.
#[derive(Clone, Copy, Debug, PartialEq, Eq, Structural)]
pub enum ErrorKind {
    /// Text or URI decode failure.
    ParsingError,
    /// Back-encoding to text failure.
    SerializationError,
    /// Descriptor loading or channel setup failure.
    IOError,
    MissingConfiguration,
    MissingOutput,
    MissingInput,
    NodeNotFound,
    PortNotFound,
    /// Reserved operation.
    Unimplemented,
    /// Default fallback.
    GenericError,
    RecvError,
    SendError,
}

/// An error of the runtime: a kind plus a human-readable message.
#[derive(Clone, Debug)]
pub struct ZFError {
    pub kind: ErrorKind,
    pub message: String,
}

impl ZFError {
    pub fn new(kind: ErrorKind, message: String) -> (r: ZFError)
        ensures
            r.kind == kind,
            r.message@ == message@,
    {
        ZFError { kind, message }
    }

    pub fn kind(&self) -> (r: ErrorKind)
        ensures
            r == self.kind,
    {
        self.kind
    }

    /// The human-readable detail, for display by callers.
    pub fn message_string(&self) -> (r: String)
        ensures
            r@ == self.message@,
    {
        self.message.clone()
    }
}

} // verus!
