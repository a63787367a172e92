use vstd::prelude::*;

verus! {

/// Failures reported by the link-layer core.
#[derive(Copy, Clone, Debug, PartialEq, Eq, Structural)]
pub enum Error {
    /// No record is waiting in the queue.
    Eof,
    /// The queue lacks room for the record.
    QueueFull,
    /// An LLCP procedure is already outstanding on the connection.
    InvalidState,
    /// A PDU, header or record has a length that its kind does not allow.
    InvalidLength,
    /// A continuation fragment arrived while no reassembly was in progress.
    UnexpectedContinuation,
}

impl Error {
    /// Whether the caller may simply try again later.
    pub open spec fn recoverable(self) -> bool {
        self == Error::Eof || self == Error::QueueFull || self == Error::InvalidState
    }

    /// Tells errors that a later retry can cure from those that end the connection.
    pub fn is_recoverable(&self) -> (r: bool)
        ensures
            r == self.recoverable(),
    {
        match self {
            Error::Eof | Error::QueueFull | Error::InvalidState => true,
            Error::InvalidLength | Error::UnexpectedContinuation => false,
        }
    }
}

} // verus!
