use vstd::prelude::*;

verus! {

/// The error kinds surfaced by the transport core.
///
/// `Parse` marks malformed bytes or truncation, `Signature` a MAC mismatch,
/// `Unsupported` a feature that is not implemented, `Timeout` retransmit or
/// ping exhaustion, `ConnectionLost` a fatal or peer-initiated teardown,
/// `Protocol` an illegal state transition, and `Io` a socket failure reported
/// by the caller.
#[derive(Debug, Clone, PartialEq, Eq)]
pub enum NexError {
    Io(String),
    Parse(String),
    Signature(String),
    Unsupported(String),
    Timeout(String),
    ConnectionLost(String),
    Protocol(String),
}

} // verus!
