use vstd::prelude::*;

verus! {

// The transport endpoint placeholder: the socket-owning driver lives
// outside the verified core and hands datagrams in and out as plain byte
// buffers.

/// A PRUDP endpoint stub: the datagram driver around the core.
#[derive(Debug)]
pub struct PrudpEndpoint;

impl PrudpEndpoint {
    pub fn new() -> (r: Self)
        ensures
            true,
    {
        Self
    }

    /// Accepts an outbound datagram; the stub consumes it without a wire.
    pub fn send(&self, _data: &[u8]) -> (r: Result<(), crate::error::NexError>)
        ensures
            r is Ok,
    {
        Ok(())
    }

    /// Yields the next inbound datagram; the stub has none.
    pub fn receive(&self) -> (r: Result<Vec<u8>, crate::error::NexError>)
        ensures
            r matches Ok(v) && v@ == Seq::<u8>::empty(),
    {
        Ok(Vec::new())
    }
}

} // verus!
