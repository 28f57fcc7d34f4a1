//! Mapping between a local socket path and an iroh `CustomAddr`.
//!
//! The address data is the raw socket-path bytes: an iroh transport address
//! is opaque (peer identity is authenticated by QUIC/TLS, not by the
//! address), so the path is a complete, self-contained transport address.

use vstd::prelude::*;

use iroh_base::CustomAddr;

use crate::IPC_TRANSPORT_ID;

verus! {

#[verifier::external_type_specification]
#[verifier::external_body]
pub struct ExCustomAddr(iroh_base::CustomAddr);

/// The `CustomAddr` that `iroh_base::CustomAddr::from_parts` builds from a
/// transport id and address bytes.
pub uninterp spec fn custom_addr_from_parts(id: u64, data: Seq<u8>) -> CustomAddr;

/// Calls `iroh_base::CustomAddr::from_parts(id, data)`, which stores the id
/// and a copy of the bytes. The result is named by
/// [`custom_addr_from_parts`].
#[verifier::external_body]
fn new_custom_addr(id: u64, data: &[u8]) -> (r: CustomAddr)
    ensures
        r == custom_addr_from_parts(id, data@),
{
    CustomAddr::from_parts(id, data)
}

/// Calls `iroh_base::CustomAddr::id`, which returns the transport id that
/// `from_parts` stored. Every `CustomAddr` is one that `from_parts` built
/// (its `Clone`, parsing and deserialisation all build it from an id and a
/// copy of the bytes), so the address is `from_parts` of the returned id
/// and some bytes.
#[verifier::external_body]
fn custom_addr_id(addr: &CustomAddr) -> (r: u64)
    ensures
        forall|id: u64, data: Seq<u8>|
            #[trigger] custom_addr_from_parts(id, data) == *addr ==> r == id,
        exists|data: Seq<u8>| #[trigger] custom_addr_from_parts(r, data) == *addr,
{
    addr.id()
}

/// Calls `iroh_base::CustomAddr::data` and copies the slice it returns: the
/// address bytes that `from_parts` stored. As every `CustomAddr` is one that
/// `from_parts` built, the address is `from_parts` of some id and the
/// returned bytes.
#[verifier::external_body]
fn custom_addr_data(addr: &CustomAddr) -> (r: Vec<u8>)
    ensures
        forall|id: u64, data: Seq<u8>|
            #[trigger] custom_addr_from_parts(id, data) == *addr ==> r@ == data,
        exists|id: u64| #[trigger] custom_addr_from_parts(id, r@) == *addr,
{
    addr.data().to_vec()
}

/// The transport id and the address bytes that `addr` was built from.
pub open spec fn parts_of(addr: CustomAddr) -> (u64, Seq<u8>) {
    choose|id: u64, data: Seq<u8>| custom_addr_from_parts(id, data) == addr
}

/// The transport id of `addr`.
pub open spec fn id_of(addr: CustomAddr) -> u64 {
    parts_of(addr).0
}

/// The address bytes of `addr`.
pub open spec fn data_of(addr: CustomAddr) -> Seq<u8> {
    parts_of(addr).1
}

/// The socket path that a custom address with transport id `id` and data
/// `data` encodes: the data itself when `id` is [`IPC_TRANSPORT_ID`],
/// nothing otherwise.
pub open spec fn ipc_path_of(id: u64, data: Seq<u8>) -> Option<Seq<u8>> {
    if id == IPC_TRANSPORT_ID {
        Some(data)
    } else {
        None
    }
}

/// The view of an optional byte buffer.
pub open spec fn opt_bytes(o: Option<Vec<u8>>) -> Option<Seq<u8>> {
    match o {
        Some(v) => Some(v@),
        None => None,
    }
}

/// The iroh `CustomAddr` for an IPC socket at `path` (the path's bytes).
pub fn ipc_custom_addr(path: &[u8]) -> (r: CustomAddr)
    ensures
        r == custom_addr_from_parts(IPC_TRANSPORT_ID, path@),
{
    new_custom_addr(IPC_TRANSPORT_ID, path)
}

/// The socket path encoded by a custom address with transport id `id` and
/// data `data`, or `None` when `id` is not [`IPC_TRANSPORT_ID`].
pub fn ipc_path_from_parts(id: u64, data: Vec<u8>) -> (r: Option<Vec<u8>>)
    ensures
        opt_bytes(r) == ipc_path_of(id, data@),
{
    if !is_ipc_transport_id(id) {
        return None;
    }
    Some(data)
}

/// The socket path encoded in `addr`, or `None` when `addr` is not an IPC
/// transport address (its id is not [`IPC_TRANSPORT_ID`]).
pub fn path_from_custom_addr(addr: &CustomAddr) -> (r: Option<Vec<u8>>)
    ensures
        custom_addr_from_parts(id_of(*addr), data_of(*addr)) == *addr,
        opt_bytes(r) == ipc_path_of(id_of(*addr), data_of(*addr)),
        forall|id: u64, data: Seq<u8>|
            #[trigger] custom_addr_from_parts(id, data) == *addr ==> opt_bytes(r) == ipc_path_of(
                id,
                data,
            ),
{
    let id = custom_addr_id(addr);
    proof {
        lemma_parts_of(*addr, id);
    }
    if !is_ipc_transport_id(id) {
        return None;
    }
    let data = custom_addr_data(addr);
    ipc_path_from_parts(id, data)
}

/// Once an address is known to be `from_parts` of `id` and some bytes, its
/// parts are `id` and those bytes (`from_parts` is injective).
proof fn lemma_parts_of(addr: CustomAddr, id: u64)
    requires
        exists|data: Seq<u8>| #[trigger] custom_addr_from_parts(id, data) == addr,
        forall|i: u64, d: Seq<u8>| #[trigger] custom_addr_from_parts(i, d) == addr ==> i == id,
    ensures
        custom_addr_from_parts(id_of(addr), data_of(addr)) == addr,
        id_of(addr) == id,
{
    let data = choose|data: Seq<u8>| #[trigger] custom_addr_from_parts(id, data) == addr;
    assert(custom_addr_from_parts(id, data) == addr);
}

/// Whether `id` is this transport's id, [`IPC_TRANSPORT_ID`].
pub fn is_ipc_transport_id(id: u64) -> (r: bool)
    ensures
        r == (id == IPC_TRANSPORT_ID),
{
    id == IPC_TRANSPORT_ID
}

/// Whether `addr` is an address of this transport, one this transport can
/// send to: its transport id is [`IPC_TRANSPORT_ID`].
pub fn is_ipc_custom_addr(addr: &CustomAddr) -> (r: bool)
    ensures
        custom_addr_from_parts(id_of(*addr), data_of(*addr)) == *addr,
        r == (id_of(*addr) == IPC_TRANSPORT_ID),
        forall|id: u64, data: Seq<u8>|
            #[trigger] custom_addr_from_parts(id, data) == *addr ==> r == (id == IPC_TRANSPORT_ID),
{
    let id = custom_addr_id(addr);
    proof {
        lemma_parts_of(*addr, id);
    }
    is_ipc_transport_id(id)
}

/// The transport id of `addr`.
pub fn custom_addr_transport_id(addr: &CustomAddr) -> (r: u64)
    ensures
        custom_addr_from_parts(id_of(*addr), data_of(*addr)) == *addr,
        r == id_of(*addr),
        forall|id: u64, data: Seq<u8>| #[trigger] custom_addr_from_parts(id, data) == *addr ==> r == id,
{
    let id = custom_addr_id(addr);
    proof {
        lemma_parts_of(*addr, id);
    }
    id
}

/// A path maps to the IPC custom address that maps back to the same path.
pub proof fn lemma_path_round_trip(path: Seq<u8>)
    ensures
        ipc_path_of(IPC_TRANSPORT_ID, path) == Some(path),
{
}

/// Every IPC address is the address of the one path it encodes: when the
/// parts of `addr` encode the socket path `path`, the IPC address of `path`
/// is `addr` itself.
pub proof fn lemma_ipc_addr_is_image_of_its_path(addr: CustomAddr, path: Seq<u8>)
    requires
        custom_addr_from_parts(id_of(addr), data_of(addr)) == addr,
        ipc_path_of(id_of(addr), data_of(addr)) == Some(path),
    ensures
        custom_addr_from_parts(IPC_TRANSPORT_ID, path) == addr,
        data_of(addr) == path,
{
}

/// An address is one this transport can send to exactly when it encodes a
/// socket path.
pub proof fn lemma_send_addr_iff_path(addr: CustomAddr)
    ensures
        (id_of(addr) == IPC_TRANSPORT_ID) == ipc_path_of(id_of(addr), data_of(addr)) is Some,
{
}

/// An address of another transport encodes no socket path.
pub proof fn lemma_foreign_id_has_no_path(id: u64, data: Seq<u8>)
    requires
        id != IPC_TRANSPORT_ID,
    ensures
        ipc_path_of(id, data) is None,
{
}

} // verus!
