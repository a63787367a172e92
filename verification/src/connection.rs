//! State of a link layer connection, as far as the responder reads it.

use vstd::prelude::*;
use crate::error::Error;

verus! {

/// The state of one connection. Between two calls of the responder it
/// belongs to the real-time part of the link layer, which alone ends an LLCP
/// procedure.
#[derive(Copy, Clone, Debug, PartialEq, Eq, Structural)]
pub struct Connection {
    /// Whether an LLCP procedure started on this side awaits the peer's answer.
    pub llcp_initiated: bool,
    /// Connection interval, in units of 1.25 ms.
    pub conn_interval: u16,
    /// Number of connection events that the slave may skip.
    pub slave_latency: u16,
    /// Supervision timeout, in units of 10 ms.
    pub supervision_timeout: u16,
}

/// What an attempt to start an LLCP procedure gives.
pub struct Initiation {
    /// The connection after the attempt.
    pub connection: Connection,
    /// Whether the procedure may be started.
    pub result: Result<(), Error>,
}

impl Connection {
    /// The connection with a procedure outstanding, all else unchanged.
    pub open spec fn pending(self) -> Connection {
        Connection { llcp_initiated: true, ..self }
    }

    /// The connection with no procedure outstanding, all else unchanged.
    pub open spec fn idle(self) -> Connection {
        Connection { llcp_initiated: false, ..self }
    }

    /// An attempt to start a procedure: granted while none is outstanding,
    /// and then one is; refused with `InvalidState` otherwise, and then
    /// nothing changes.
    pub open spec fn initiate(self) -> Initiation {
        if self.llcp_initiated {
            Initiation { connection: self, result: Err(Error::InvalidState) }
        } else {
            Initiation { connection: self.pending(), result: Ok(()) }
        }
    }

    /// On a connection with no procedure outstanding a first attempt is
    /// granted and marks the connection; a second attempt, made before the
    /// mark is cleared, is refused and leaves the connection as the first
    /// left it.
    pub proof fn lemma_one_procedure(self)
        requires
            !self.llcp_initiated,
        ensures
            self.initiate().result is Ok,
            self.initiate().connection == self.pending(),
            self.initiate().connection.llcp_initiated,
            self.initiate().connection.initiate().result == Err::<(), Error>(Error::InvalidState),
            self.initiate().connection.initiate().connection == self.initiate().connection,
    {
    }

    /// Once the real-time part has cleared the mark, a procedure can be
    /// started again.
    pub proof fn lemma_cleared_allows(self)
        ensures
            self.idle().initiate().result is Ok,
            self.idle().initiate().connection == self.pending(),
    {
    }

    /// Makes the state of a fresh connection, with no procedure outstanding.
    pub fn new(conn_interval: u16, slave_latency: u16, supervision_timeout: u16) -> (r: Connection)
        ensures
            r == (Connection {
                llcp_initiated: false,
                conn_interval,
                slave_latency,
                supervision_timeout,
            }),
    {
        Connection { llcp_initiated: false, conn_interval, slave_latency, supervision_timeout }
    }

    /// Records that the peer has answered the outstanding procedure, or that
    /// it timed out. Only the real-time part calls this.
    pub fn llcp_concluded(&mut self)
        ensures
            *final(self) == old(self).idle(),
    {
        self.llcp_initiated = false;
    }
}

} // verus!
