//! A local-socket custom transport for iroh: co-located peers talk over a
//! Unix datagram socket as a native iroh path.
//!
//! This crate holds the transport's decisions, each with its contract:
//!
//! - `addr`: the mapping between a socket path and an iroh `CustomAddr`
//!   tagged with [`IPC_TRANSPORT_ID`];
//! - `selector`: the path ranking of [`PreferIpcTransport`] (IPC, then
//!   direct, then relay; biased RTT within a tier, with hysteresis);
//! - `recv`: the batching rule of the datagram receive loop;
//! - `transport`: the configuration of [`IpcTransport`].

use vstd::prelude::*;

pub mod addr;
pub mod recv;
pub mod selector;
pub mod transport;

pub use selector::{pick_index, PathCandidate, PreferIpcTransport, RankKey, RemoteAddr, Tier};
pub use addr::{ipc_custom_addr, path_from_custom_addr};
pub use transport::IpcTransport;

verus! {

/// iroh custom-transport type id for this local-IPC transport, mixed into
/// every `iroh_base::CustomAddr` it produces so iroh routes only its own
/// addresses to it ("ipc_tr" followed by two zero bytes).
pub const IPC_TRANSPORT_ID: u64 = 0x69_70_63_5f_74_72_00_00;

} // verus!
