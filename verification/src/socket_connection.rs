use vstd::prelude::*;

verus! {

// The socket-connection placeholder: the peer-facing datagram pair lives
// outside the verified core.

/// A socket connection stub: one peer's datagram channel.
#[derive(Debug)]
pub struct SocketConnection;

impl SocketConnection {
    pub fn new() -> (r: Self)
        ensures
            true,
    {
        Self
    }

    /// Accepts an outbound buffer; the stub consumes it without a wire.
    pub fn send(&self, _buf: &[u8]) -> (r: Result<(), crate::error::NexError>)
        ensures
            r is Ok,
    {
        Ok(())
    }

    /// Yields the next inbound buffer; the stub has none.
    pub fn receive(&self) -> (r: Result<Vec<u8>, crate::error::NexError>)
        ensures
            r matches Ok(v) && v@ == Seq::<u8>::empty(),
    {
        Ok(Vec::new())
    }
}

} // verus!
