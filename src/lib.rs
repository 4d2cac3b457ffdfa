//! An ICMP echo proxy: an unprivileged client asks a privileged proxy to send
//! ICMP Echo Requests on its behalf and to report the round-trip time back.
use vstd::prelude::*;

pub mod checksum;
pub mod cli;
pub mod client;
pub mod ping;
pub mod proxy;
pub mod wire;

verus! {

/// Largest datagram the library builds or inspects (the 64 KiB scratch buffer).
pub const MAX_DATAGRAM: usize = 65536;

} // verus!
