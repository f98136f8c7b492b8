use wlclient::wayland::wl_buffer::WlBuffer;
use wlclient::wayland::wl_compositor::WlCompositor;
use wlclient::wayland::wl_display::{WlDisplay, WlDisplayError};
use wlclient::wayland::wl_registry::WlRegistry;
use wlclient::wayland::wl_shm::WlShm;
use wlclient::wayland::wl_shm_pool::WlShmPool;
use wlclient::wayland::wl_surface::WlSurface;
use wlclient::wayland::xdg_surface::XdgSurface;
use wlclient::wayland::xdg_toplevel::{InvalidCapability, XdgToplevel, WM_CAPABILITIES};
use wlclient::wayland::xdg_wm_base::XdgWmBase;
use wlclient::wayland::{
    parse_wl_header, write_wl_string, InterfaceInfo, OutMessage, WaylandComm, WaylandConnection,
    MSG_BUF_SIZE,
};

fn message(object_id: u32, opcode: u16, args: &[u8]) -> Vec<u8> {
    let mut m = Vec::new();
    m.extend_from_slice(&object_id.to_ne_bytes());
    m.extend_from_slice(&opcode.to_ne_bytes());
    m.extend_from_slice(&((8 + args.len()) as u16).to_ne_bytes());
    m.extend_from_slice(args);
    m
}

fn u32s(values: &[u32]) -> Vec<u8> {
    values.iter().flat_map(|v| v.to_ne_bytes()).collect()
}

fn i32s(values: &[i32]) -> Vec<u8> {
    values.iter().flat_map(|v| v.to_ne_bytes()).collect()
}

fn single(conn: &mut WaylandConnection) -> OutMessage {
    let mut reqs = conn.take_requests();
    assert_eq!(reqs.len(), 1);
    reqs.pop().unwrap()
}

#[test]
fn fresh_connection_state() {
    let conn = WaylandConnection::new();
    assert_eq!(conn.last_obj_id(), 1);
    assert_eq!(conn.free_space_len(), MSG_BUF_SIZE);
    assert!(conn.received_bytes().is_empty());
}

#[test]
fn new_ids_are_sequential() {
    let mut conn = WaylandConnection::new();
    assert_eq!(conn.get_new_id(), 2);
    assert_eq!(conn.get_new_id(), 3);
    assert_eq!(conn.last_obj_id(), 3);
}

#[test]
fn packed_request_parses_back() {
    let conn = WaylandConnection::new();
    let (data, size) = conn.pack_req_data(9, 4, &[1, 2, 3, 4, 5, 6, 7, 8]);
    assert_eq!(size, 16);
    assert_eq!(data, message(9, 4, &[1, 2, 3, 4, 5, 6, 7, 8]));
    let (h, args) = parse_wl_header(&data);
    assert_eq!((h.object_id, h.opcode, h.msg_size), (9, 4, 16));
    assert_eq!(args, &[1u8, 2, 3, 4, 5, 6, 7, 8][..]);
}

#[test]
fn requests_come_out_in_order_with_their_descriptors() {
    let mut conn = WaylandConnection::new();
    conn.send_req(3, 1, &[7, 7, 7, 7]);
    conn.send_req_with_fd(4, 0, &[], 11);
    let reqs = conn.take_requests();
    assert_eq!(reqs.len(), 2);
    assert_eq!(reqs[0].data, message(3, 1, &[7, 7, 7, 7]));
    assert_eq!(reqs[0].fd, None);
    assert_eq!(reqs[1].data, message(4, 0, &[]));
    assert_eq!(reqs[1].fd, Some(11));
    assert!(conn.take_requests().is_empty());
}

#[test]
fn received_bytes_accumulate_and_reset_keeps_the_tail() {
    let mut conn = WaylandConnection::new();
    conn.read_events(&[1, 2, 3]);
    conn.read_events(&[4, 5]);
    assert_eq!(conn.received_bytes(), vec![1, 2, 3, 4, 5]);
    assert_eq!(conn.free_space_len(), MSG_BUF_SIZE - 5);
    conn.reset_buffer(3);
    assert_eq!(conn.received_bytes(), vec![4, 5]);
    assert_eq!(conn.free_space_len(), MSG_BUF_SIZE - 2);
    conn.reset_buffer(0);
    assert_eq!(conn.received_bytes(), vec![4, 5]);
    conn.reset_buffer(2);
    assert!(conn.received_bytes().is_empty());
    assert_eq!(conn.free_space_len(), MSG_BUF_SIZE);
}

#[test]
fn receive_buffer_fills_up_completely() {
    let mut conn = WaylandConnection::new();
    let data = vec![0xabu8; MSG_BUF_SIZE];
    conn.read_events(&data);
    assert_eq!(conn.free_space_len(), 0);
    assert_eq!(conn.received_bytes(), data);
}

#[test]
fn reader_sees_the_received_messages() {
    let mut conn = WaylandConnection::new();
    let mut bytes = message(2, 0, &[1, 0, 0, 0]);
    bytes.extend_from_slice(&[9, 9]);
    conn.read_events(&bytes);
    let mut reader = conn.reader();
    let (h, args, _) = reader.next().unwrap();
    assert_eq!(h.object_id, 2);
    assert_eq!(args, &[1u8, 0, 0, 0][..]);
    assert!(reader.next().is_none());
    assert_eq!(reader.finish(), 12);
}

#[test]
fn display_get_registry_request() {
    let mut conn = WaylandConnection::new();
    let id = conn.wl_display_get_registry();
    assert_eq!(id, 2);
    assert_eq!(single(&mut conn).data, message(1, 1, &u32s(&[2])));
}

#[test]
fn registry_bind_request() {
    let mut conn = WaylandConnection::new();
    let info = InterfaceInfo { unique_name: 5, name: b"wl_shm".to_vec(), version: 1 };
    let id = conn.wl_registry_bind(2, &info);
    assert_eq!(id, 2);
    let mut args = u32s(&[5]);
    write_wl_string(b"wl_shm", &mut args);
    args.extend_from_slice(&u32s(&[1, 2]));
    assert_eq!(single(&mut conn).data, message(2, 0, &args));
}

#[test]
fn compositor_create_surface_request() {
    let mut conn = WaylandConnection::new();
    let id = conn.wl_compositor_create_surface(4);
    assert_eq!(id, 2);
    assert_eq!(single(&mut conn).data, message(4, 0, &u32s(&[2])));
}

#[test]
fn shm_requests() {
    let mut conn = WaylandConnection::new();
    let id = conn.wl_shm_create_pool(3, 4096, 17);
    assert_eq!(id, 2);
    let req = single(&mut conn);
    assert_eq!(req.data, message(3, 0, &u32s(&[2, 4096])));
    assert_eq!(req.fd, Some(17));
    conn.wl_shm_release(3);
    assert_eq!(single(&mut conn).data, message(3, 1, &[]));
}

#[test]
fn shm_pool_requests() {
    let mut conn = WaylandConnection::new();
    let id = conn.wl_shm_pool_create_buffer(6, 64, 4, 2, 16, 0);
    assert_eq!(id, 2);
    assert_eq!(single(&mut conn).data, message(6, 0, &u32s(&[2, 64, 4, 2, 16, 0])));
    conn.wl_shm_pool_resize(6, 8192);
    assert_eq!(single(&mut conn).data, message(6, 2, &u32s(&[8192])));
    conn.wl_shm_pool_destroy(6);
    assert_eq!(single(&mut conn).data, message(6, 1, &[]));
}

#[test]
fn buffer_destroy_request() {
    let mut conn = WaylandConnection::new();
    conn.wl_buffer_destroy(8);
    assert_eq!(single(&mut conn).data, message(8, 0, &[]));
}

#[test]
fn surface_requests() {
    let mut conn = WaylandConnection::new();
    conn.wl_surface_attach(5, 9);
    assert_eq!(single(&mut conn).data, message(5, 1, &u32s(&[9, 0, 0])));
    conn.wl_surface_damage_buffer(5, -1, 2, 30, 40);
    assert_eq!(single(&mut conn).data, message(5, 9, &i32s(&[-1, 2, 30, 40])));
    conn.wl_surface_commit(5);
    assert_eq!(single(&mut conn).data, message(5, 6, &[]));
    conn.wl_surface_destroy(5);
    assert_eq!(single(&mut conn).data, message(5, 0, &[]));
}

#[test]
fn xdg_requests() {
    let mut conn = WaylandConnection::new();
    let xdg = conn.xdg_wm_base_get_xdg_surface(4, 7);
    assert_eq!(xdg, 2);
    assert_eq!(single(&mut conn).data, message(4, 2, &u32s(&[2, 7])));
    conn.xdg_wm_base_pong(4, 99);
    assert_eq!(single(&mut conn).data, message(4, 3, &u32s(&[99])));
    let top = conn.xdg_surface_get_toplevel(2);
    assert_eq!(top, 3);
    assert_eq!(single(&mut conn).data, message(2, 1, &u32s(&[3])));
    conn.xdg_surface_ack_configure(2, 12);
    assert_eq!(single(&mut conn).data, message(2, 4, &u32s(&[12])));
    conn.xdg_toplevel_destroy(3);
    assert_eq!(single(&mut conn).data, message(3, 0, &[]));
    conn.xdg_surface_destroy(2);
    assert_eq!(single(&mut conn).data, message(2, 0, &[]));
    conn.xdg_wm_base_destroy(4);
    assert_eq!(single(&mut conn).data, message(4, 0, &[]));
}

#[test]
fn capabilities_from_codes() {
    assert_eq!(WM_CAPABILITIES::try_from(1u32), Ok(WM_CAPABILITIES::WINDOW_MENU));
    assert_eq!(WM_CAPABILITIES::try_from(2u32), Ok(WM_CAPABILITIES::MAXIMIZE));
    assert_eq!(WM_CAPABILITIES::try_from(3u32), Ok(WM_CAPABILITIES::FULLSCREEN));
    assert_eq!(WM_CAPABILITIES::try_from(4u32), Ok(WM_CAPABILITIES::MINIMIZE));
    assert_eq!(WM_CAPABILITIES::try_from(0u32), Err(InvalidCapability(0)));
    assert_eq!(WM_CAPABILITIES::try_from(5u32), Err(InvalidCapability(5)));
}

#[test]
fn capability_codes_roundtrip() {
    for c in [
        WM_CAPABILITIES::WINDOW_MENU,
        WM_CAPABILITIES::MAXIMIZE,
        WM_CAPABILITIES::FULLSCREEN,
        WM_CAPABILITIES::MINIMIZE,
    ] {
        assert_eq!(WM_CAPABILITIES::try_from(c.code()), Ok(c));
    }
}

#[test]
fn registry_global_event_decodes() {
    let mut args = u32s(&[7]);
    write_wl_string(b"xdg_wm_base", &mut args);
    args.extend_from_slice(&u32s(&[6]));
    assert!(InterfaceInfo::check_registry_global(&args));
    let info = InterfaceInfo::from_registry_global_event(&args);
    assert_eq!(info.unique_name, 7);
    assert_eq!(info.name, b"xdg_wm_base".to_vec());
    assert_eq!(info.version, 6);
}

#[test]
fn registry_global_without_version_is_refused() {
    let mut args = u32s(&[7]);
    write_wl_string(b"wl_shm", &mut args);
    assert!(!InterfaceInfo::check_registry_global(&args));
    assert!(!InterfaceInfo::check_registry_global(&[1, 2]));
}

#[test]
fn display_error_event_decodes() {
    let mut args = u32s(&[3, 2]);
    write_wl_string(b"invalid object", &mut args);
    let err = WlDisplayError::from_error_event(&args).unwrap();
    assert_eq!(err.object_id, 3);
    assert_eq!(err.error_code, 2);
    assert_eq!(err.msg, b"invalid object".to_vec());
}

#[test]
fn malformed_display_error_is_refused() {
    assert!(WlDisplayError::from_error_event(&[0, 0, 0]).is_none());
    let mut trailing = u32s(&[3, 2]);
    write_wl_string(b"oops", &mut trailing);
    trailing.extend_from_slice(&[0, 0, 0, 0]);
    assert!(WlDisplayError::from_error_event(&trailing).is_none());
}

#[test]
fn invalid_capability_message_names_the_code() {
    assert_eq!(InvalidCapability(0).message(), "Invalid capability 0".to_string());
    assert_eq!(InvalidCapability(1234).message(), "Invalid capability 1234".to_string());
    assert_eq!(InvalidCapability(u32::MAX).message(), format!("Invalid capability {}", u32::MAX));
    let err = WM_CAPABILITIES::try_from(7u32).unwrap_err();
    assert_eq!(err.message(), "Invalid capability 7".to_string());
}

#[test]
fn handed_out_ids_never_reach_back_to_the_display() {
    let mut conn = WaylandConnection::new();
    let mut previous = conn.get_new_id();
    assert_eq!(previous, 2);
    for _ in 0..10 {
        let id = conn.get_new_id();
        assert_eq!(id, previous + 1);
        previous = id;
    }
}
