//! The configuration of the IPC custom transport.

use vstd::prelude::*;

use iroh_base::CustomAddr;

use crate::addr::{custom_addr_from_parts, ipc_custom_addr};
use crate::IPC_TRANSPORT_ID;

verus! {

/// Requested `SO_RCVBUF` / `SO_SNDBUF` for the datagram socket (8 MiB).
///
/// QUIC bursts many packets for a single co-located transfer; the default
/// AF_UNIX receive buffer (about 208 KiB) overflows mid-burst, backpressures
/// the sender and triggers QUIC PTO backoff. The request is best-effort: the
/// kernel clamps it to `net.core.rmem_max` / `wmem_max`.
pub const IPC_SOCKET_BUFFER_BYTES: usize = 8 * 1024 * 1024;

/// An iroh custom transport that binds a Unix `SOCK_DGRAM` socket at a fixed
/// path and serves it as a native iroh path for co-located peers.
///
/// Advertise [`local_addr`](Self::local_addr) to peers and install
/// [`PreferIpcTransport`](crate::PreferIpcTransport) so iroh prefers the
/// socket for same-host peers.
#[derive(Debug, Clone)]
pub struct IpcTransport {
    socket_path: Vec<u8>,
    mode: Option<u32>,
}

/// What an [`IpcTransport`] is configured with.
pub struct IpcTransportView {
    /// The bytes of the path the socket is bound at.
    pub socket_path: Seq<u8>,
    /// The filesystem mode applied to the socket file after binding, if any.
    pub mode: Option<u32>,
}

impl View for IpcTransport {
    type V = IpcTransportView;

    closed spec fn view(&self) -> IpcTransportView {
        IpcTransportView { socket_path: self.socket_path@, mode: self.mode }
    }
}

impl IpcTransport {
    /// A transport that binds its datagram socket at `socket_path` (the
    /// path's bytes) when the iroh endpoint binds, with the process's default
    /// file mode.
    pub fn new(socket_path: &[u8]) -> (r: IpcTransport)
        ensures
            r@.socket_path == socket_path@,
            r@.mode is None,
    {
        let mut path: Vec<u8> = Vec::new();
        let mut i: usize = 0;
        while i < socket_path.len()
            invariant
                i <= socket_path@.len(),
                path@ == socket_path@.subrange(0, i as int),
            decreases socket_path@.len() - i,
        {
            path.push(socket_path[i]);
            i += 1;
        }
        assert(path@ == socket_path@);
        IpcTransport { socket_path: path, mode: None }
    }

    /// Set the filesystem mode applied to the socket file after binding
    /// (e.g. `0o666`).
    ///
    /// A Unix datagram `sendto` requires write permission on the destination
    /// socket file, so peers running as different users need a mode wider
    /// than the bind default. The transport carries QUIC: the peer is
    /// authenticated by TLS, not by the socket mode, so widening the file mode
    /// adds no trust beyond reachability.
    #[must_use]
    pub fn with_mode(self, mode: u32) -> (r: IpcTransport)
        ensures
            r@.socket_path == self@.socket_path,
            r@.mode == Some(mode),
    {
        let mut this = self;
        this.mode = Some(mode);
        this
    }

    /// The bytes of the path the socket is bound at.
    pub fn socket_path(&self) -> (r: &[u8])
        ensures
            r@ == self@.socket_path,
    {
        self.socket_path.as_slice()
    }

    /// The filesystem mode applied to the socket file after binding, if any.
    pub fn mode(&self) -> (r: Option<u32>)
        ensures
            r == self@.mode,
    {
        self.mode
    }

    /// This transport's local IPC address: advertise it to peers so they can
    /// dial the socket.
    pub fn local_addr(&self) -> (r: CustomAddr)
        ensures
            r == custom_addr_from_parts(IPC_TRANSPORT_ID, self@.socket_path),
    {
        ipc_custom_addr(self.socket_path.as_slice())
    }
}

} // verus!
