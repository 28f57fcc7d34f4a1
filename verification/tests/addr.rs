use iroh_base::CustomAddr;
use iroh_ipc_transport::addr::{ipc_path_from_parts, is_ipc_custom_addr, is_ipc_transport_id};
use iroh_ipc_transport::{ipc_custom_addr, path_from_custom_addr, IPC_TRANSPORT_ID};

#[test]
fn path_round_trips_through_custom_addr() {
    let path: &[u8] = b"/tmp/wwkg/z6Mk.host.ipc.sock";
    let addr = ipc_custom_addr(path);
    assert_eq!(addr.id(), IPC_TRANSPORT_ID);
    assert_eq!(path_from_custom_addr(&addr).as_deref(), Some(path));
}

#[test]
fn foreign_transport_id_is_rejected() {
    let foreign = CustomAddr::from_parts(0xdead_beef, b"/whatever");
    assert_eq!(path_from_custom_addr(&foreign), None);
}

// ---- further cases ----

#[test]
fn ipc_custom_addr_carries_the_path_bytes() {
    let addr = ipc_custom_addr(b"/run/user/1000/peer.sock");
    assert_eq!(addr.data(), b"/run/user/1000/peer.sock");
    assert_eq!(addr, CustomAddr::from_parts(IPC_TRANSPORT_ID, b"/run/user/1000/peer.sock"));
}

#[test]
fn transport_id_spells_ipc_tr() {
    assert_eq!(IPC_TRANSPORT_ID.to_be_bytes(), *b"ipc_tr\0\0");
}

#[test]
fn long_and_empty_paths_round_trip() {
    let long: Vec<u8> = (0..200u8).collect();
    let addr = ipc_custom_addr(&long);
    assert_eq!(path_from_custom_addr(&addr), Some(long));
    let empty = ipc_custom_addr(b"");
    assert_eq!(path_from_custom_addr(&empty), Some(Vec::new()));
}

#[test]
fn path_from_parts_checks_the_id() {
    assert_eq!(
        ipc_path_from_parts(IPC_TRANSPORT_ID, b"/tmp/s".to_vec()),
        Some(b"/tmp/s".to_vec())
    );
    assert_eq!(ipc_path_from_parts(IPC_TRANSPORT_ID + 1, b"/tmp/s".to_vec()), None);
    assert_eq!(ipc_path_from_parts(0, Vec::new()), None);
}

#[test]
fn only_ipc_addresses_are_valid_send_addresses() {
    assert!(is_ipc_custom_addr(&ipc_custom_addr(b"/tmp/peer.sock")));
    assert!(!is_ipc_custom_addr(&CustomAddr::from_parts(0xdead_beef, b"/tmp/peer.sock")));
    assert!(!is_ipc_custom_addr(&CustomAddr::from_parts(0, b"")));
}

#[test]
fn an_address_of_another_transport_with_the_same_bytes_has_no_path() {
    let bytes: &[u8] = b"/tmp/peer.sock";
    let other = CustomAddr::from_parts(IPC_TRANSPORT_ID ^ 1, bytes);
    assert_eq!(path_from_custom_addr(&other), None);
    assert_eq!(path_from_custom_addr(&ipc_custom_addr(bytes)).as_deref(), Some(bytes));
}

#[test]
fn transport_id_check() {
    assert!(is_ipc_transport_id(IPC_TRANSPORT_ID));
    assert!(!is_ipc_transport_id(0xdead_beef));
    assert!(!is_ipc_transport_id(0));
}

#[test]
fn transport_id_of_an_address() {
    assert_eq!(
        iroh_ipc_transport::addr::custom_addr_transport_id(&CustomAddr::from_parts(42, b"x")),
        42
    );
    assert_eq!(
        iroh_ipc_transport::addr::custom_addr_transport_id(&ipc_custom_addr(b"/tmp/s")),
        IPC_TRANSPORT_ID
    );
}

#[test]
fn send_check_agrees_with_path_decoding() {
    for addr in [
        ipc_custom_addr(b"/tmp/a"),
        CustomAddr::from_parts(7, b"/tmp/a"),
        CustomAddr::from_parts(IPC_TRANSPORT_ID, b""),
    ] {
        let path = path_from_custom_addr(&addr);
        assert_eq!(is_ipc_custom_addr(&addr), path.is_some());
        if let Some(p) = path {
            assert_eq!(ipc_custom_addr(&p), addr);
        }
    }
}
