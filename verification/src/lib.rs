//! A PRUDP transport core: packet codecs for the v0 and v1 framings, the
//! reliable-delivery machinery (sliding window, dispatch queue, fragmentation,
//! retransmission timing), the connection state machine, and the RMC
//! request/response framing that rides on data-phase payloads.

pub mod bytes;
pub mod compression;
pub mod connection;
pub mod constants;
pub mod encryption;
pub mod endpoint;
pub mod error;
pub mod fragmentation;
pub mod io;
pub mod packet;
pub mod packet_dispatch_queue;
pub mod packet_v1;
pub mod pid;
pub mod reliable;
pub mod result_codes;
pub mod rmc_message;
pub mod signature;
pub mod socket_connection;
pub mod station_url;
pub mod rtt;
pub mod timeout_manager;
pub mod types;

use vstd::prelude::*;

verus! {

/// The result type used throughout the transport core.
pub type NexResult<T> = Result<T, crate::error::NexError>;

} // verus!
