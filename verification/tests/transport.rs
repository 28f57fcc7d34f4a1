use iroh_base::CustomAddr;
use iroh_ipc_transport::transport::IPC_SOCKET_BUFFER_BYTES;
use iroh_ipc_transport::{ipc_custom_addr, path_from_custom_addr, IpcTransport, IPC_TRANSPORT_ID};

#[test]
fn new_transport_has_no_mode() {
    let t = IpcTransport::new(b"/tmp/mode.ipc.sock");
    assert_eq!(t.socket_path(), b"/tmp/mode.ipc.sock");
    assert_eq!(t.mode(), None);
}

#[test]
fn with_mode_sets_the_mode_and_keeps_the_path() {
    let t = IpcTransport::new(b"/tmp/mode.ipc.sock").with_mode(0o666);
    assert_eq!(t.mode(), Some(0o666));
    assert_eq!(t.socket_path(), b"/tmp/mode.ipc.sock");
    let t = t.with_mode(0o600);
    assert_eq!(t.mode(), Some(0o600));
}

#[test]
fn local_addr_is_the_ipc_address_of_the_socket_path() {
    let t = IpcTransport::new(b"/tmp/b.ipc.sock");
    let addr = t.local_addr();
    assert_eq!(addr, ipc_custom_addr(b"/tmp/b.ipc.sock"));
    assert_eq!(addr, CustomAddr::from_parts(IPC_TRANSPORT_ID, b"/tmp/b.ipc.sock"));
    assert_eq!(path_from_custom_addr(&addr), Some(b"/tmp/b.ipc.sock".to_vec()));
}

#[test]
fn socket_buffer_request_is_eight_mib() {
    assert_eq!(IPC_SOCKET_BUFFER_BYTES, 8 * 1024 * 1024);
}
