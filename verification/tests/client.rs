use wlclient::client::{ClientFailure, ClientStatus, Step, SurfaceBuffers, WaylandClient};
use wlclient::image::ImageError;
use wlclient::utils::ShmGeometry;
use wlclient::wayland::{write_wl_string, WaylandComm};

fn encode_rgba(width: u32, height: u32, pixels: &[u8]) -> Vec<u8> {
    let mut out = Vec::new();
    {
        let mut encoder = png::Encoder::new(&mut out, width, height);
        encoder.set_color(png::ColorType::Rgba);
        encoder.set_depth(png::BitDepth::Eight);
        let mut writer = encoder.write_header().unwrap();
        writer.write_image_data(pixels).unwrap();
        writer.finish().unwrap();
    }
    out
}

fn message(object_id: u32, opcode: u16, args: &[u8]) -> Vec<u8> {
    let mut m = Vec::new();
    m.extend_from_slice(&object_id.to_ne_bytes());
    m.extend_from_slice(&opcode.to_ne_bytes());
    m.extend_from_slice(&((8 + args.len()) as u16).to_ne_bytes());
    m.extend_from_slice(args);
    m
}

fn u32s(values: &[u32]) -> Vec<u8> {
    values.iter().flat_map(|v| v.to_ne_bytes()).collect()
}

fn i32s(values: &[i32]) -> Vec<u8> {
    values.iter().flat_map(|v| v.to_ne_bytes()).collect()
}

fn global(name: u32, interface: &[u8], version: u32) -> Vec<u8> {
    let mut args = u32s(&[name]);
    write_wl_string(interface, &mut args);
    args.extend_from_slice(&u32s(&[version]));
    message(2, 0, &args)
}

fn configure(toplevel: u32, width: u32, height: u32) -> Vec<u8> {
    let mut args = u32s(&[width, height]);
    args.extend_from_slice(&u32s(&[0]));
    message(toplevel, 0, &args)
}

fn feed(client: &mut WaylandClient, bytes: &[u8]) -> Result<bool, ClientFailure> {
    client.conn.read_events(bytes);
    client.handle_events()
}

fn sent(client: &mut WaylandClient) -> Vec<Vec<u8>> {
    client.conn.take_requests().into_iter().map(|m| m.data).collect()
}

fn step(client: &mut WaylandClient, in_progress: bool) -> Step {
    client.update_state(in_progress, &mut [])
}

/// A 2 by 1 image: a half transparent pixel and an opaque blue one.
fn image() -> Vec<u8> {
    encode_rgba(2, 1, &[200, 100, 50, 128, 0, 0, 255, 255])
}

/// A client taken through registry, binding, formats, surface creation and the first
/// configure of a 4 by 4 window, up to the request for shared memory.
fn client_until_allocation() -> WaylandClient {
    client_configured(&image(), 4, 4)
}

/// A client showing `png` taken up to its first configure, of a `width` by `height` window,
/// and the step after it.
fn client_configured(png: &[u8], width: u32, height: u32) -> WaylandClient {
    let mut c = WaylandClient::new(png).unwrap();
    assert_eq!(step(&mut c, false), Step::Continue);
    assert_eq!(c.state.status, ClientStatus::GotRegistry);
    assert_eq!(sent(&mut c), vec![message(1, 1, &u32s(&[2]))]);

    let mut events = global(1, b"wl_shm", 1);
    events.extend_from_slice(&global(2, b"xdg_wm_base", 5));
    events.extend_from_slice(&global(3, b"wl_compositor", 4));
    events.extend_from_slice(&global(4, b"wl_output", 2));
    assert_eq!(feed(&mut c, &events), Ok(true));
    assert_eq!(c.state.status, ClientStatus::ReadingGlobalInterfaces);
    assert_eq!(c.advertised_interfaces.len(), 4);

    assert_eq!(step(&mut c, false), Step::Continue);
    assert_eq!(c.state.status, ClientStatus::BindingInterfaces);
    assert_eq!(step(&mut c, false), Step::Continue);
    assert_eq!(c.state.status, ClientStatus::AwaitingFormats);
    assert_eq!(c.interfaces.wl_shm, 3);
    assert_eq!(c.interfaces.xdg_wm_base, 4);
    assert_eq!(c.interfaces.wl_compositor, 5);
    let binds = sent(&mut c);
    let mut shm_args = u32s(&[1]);
    write_wl_string(b"wl_shm", &mut shm_args);
    shm_args.extend_from_slice(&u32s(&[1, 3]));
    assert_eq!(binds.len(), 3);
    assert_eq!(binds[0], message(2, 0, &shm_args));

    assert_eq!(feed(&mut c, &message(3, 0, &u32s(&[0]))), Ok(true));
    assert_eq!(c.state.status, ClientStatus::ReadingFormats);
    assert_eq!(step(&mut c, false), Step::Continue);
    assert_eq!(c.state.status, ClientStatus::CreatingSurface);
    assert_eq!(step(&mut c, false), Step::Continue);
    assert_eq!(c.state.status, ClientStatus::AwaitingInitialConfigure);
    assert_eq!(
        sent(&mut c),
        vec![
            message(5, 0, &u32s(&[6])),
            message(4, 2, &u32s(&[7, 6])),
            message(7, 1, &u32s(&[8])),
            message(6, 6, &[]),
        ]
    );

    assert_eq!(feed(&mut c, &configure(8, width, height)), Ok(true));
    assert_eq!(c.state.status, ClientStatus::GotInitialConfigure);
    assert_eq!((c.window_width, c.window_height), (width, height));
    assert_eq!(step(&mut c, false), Step::Continue);
    assert_eq!(c.state.status, ClientStatus::CreatingBuffers);
    c
}

#[test]
fn new_client_starts_connected_with_the_image() {
    let c = WaylandClient::new(&image()).unwrap();
    assert_eq!(c.state.status, ClientStatus::Connected);
    assert_eq!((c.window_width, c.window_height), (2, 1));
    assert_eq!((c.draw_width, c.draw_height), (2, 1));
    assert_eq!(c.img_argb8, vec![25, 50, 100, 128, 254, 0, 0, 255]);
    assert_eq!(c.conn.last_obj_id(), 1);
    assert!(c.surface_buffers.is_none());
}

#[test]
fn new_client_refuses_a_bad_image() {
    assert_eq!(WaylandClient::new(b"garbage").err(), Some(ImageError::Undecodable));
}

#[test]
fn full_life_of_a_client() {
    let mut c = client_until_allocation();
    let g = match step(&mut c, false) {
        Step::AllocateShm(g) => g,
        other => panic!("unexpected step {:?}", other),
    };
    assert_eq!(g, ShmGeometry { size: 128, height: 4, width: 4, stride: 16 });
    assert_eq!(c.create_buffers(42), Step::Continue);
    assert_eq!(c.state.status, ClientStatus::Drawing);
    let reqs = c.conn.take_requests();
    assert_eq!(reqs[0].data, message(3, 0, &u32s(&[9, 128])));
    assert_eq!(reqs[0].fd, Some(42));
    assert_eq!(reqs[1].data, message(9, 0, &u32s(&[10, 0, 4, 4, 16, 0])));
    assert_eq!(reqs[2].data, message(9, 0, &u32s(&[11, 64, 4, 4, 16, 0])));

    // Drawing waits while events are being handled.
    let mut pixels = vec![0xeeu8; 128];
    assert_eq!(c.update_state(true, &mut pixels), Step::Continue);
    assert_eq!(c.state.status, ClientStatus::Drawing);
    assert_eq!(c.update_state(false, &mut pixels), Step::Continue);
    assert_eq!(c.state.status, ClientStatus::Idle);
    assert_eq!((c.x_offset, c.y_offset), (1, 1));
    let mut expected = vec![0xeeu8; 64];
    let mut back = vec![0u8; 64];
    back[20..28].copy_from_slice(&[25, 50, 100, 128, 254, 0, 0, 255]);
    expected.extend_from_slice(&back);
    assert_eq!(pixels, expected);
    assert_eq!(
        sent(&mut c),
        vec![
            message(6, 1, &u32s(&[11, 0, 0])),
            message(6, 9, &i32s(&[1, 1, 2, 1])),
            message(6, 6, &[]),
        ]
    );
    let sb = c.surface_buffers.unwrap();
    assert!(!sb.first_buf_front);
    assert!(!sb.buf_2_free);

    // The compositor acknowledges, closes, and the client exits cleanly.
    assert_eq!(feed(&mut c, &message(7, 0, &u32s(&[77]))), Ok(true));
    assert_eq!(c.update_state(false, &mut pixels), Step::Continue);
    assert_eq!(sent(&mut c), vec![message(7, 4, &u32s(&[77]))]);
    assert_eq!(feed(&mut c, &message(8, 1, &[])), Ok(true));
    assert_eq!(c.state.status, ClientStatus::Closing);
    assert_eq!(c.update_state(false, &mut pixels), Step::ReleaseShm);
    assert_eq!(c.state.status, ClientStatus::Exiting);
    assert!(c.surface_buffers.is_none());
    assert_eq!(
        sent(&mut c),
        vec![
            message(8, 0, &[]),
            message(7, 0, &[]),
            message(6, 0, &[]),
            message(10, 0, &[]),
            message(11, 0, &[]),
            message(9, 1, &[]),
            message(3, 1, &[]),
            message(4, 0, &[]),
        ]
    );
    assert_eq!(step(&mut c, true), Step::Continue);
    assert_eq!(step(&mut c, false), Step::Exit(0));
}

#[test]
fn resize_after_a_bigger_configure() {
    let mut c = client_until_allocation();
    assert!(matches!(step(&mut c, false), Step::AllocateShm(_)));
    assert_eq!(c.create_buffers(3), Step::Continue);
    let mut pixels = vec![0u8; 128];
    assert_eq!(c.update_state(false, &mut pixels), Step::Continue);
    sent(&mut c);

    assert_eq!(feed(&mut c, &configure(8, 6, 4)), Ok(true));
    assert_eq!(c.state.status, ClientStatus::Resizing(0));
    assert_eq!(c.update_state(false, &mut pixels), Step::Continue);
    assert_eq!(c.state.status, ClientStatus::Resizing(1));
    assert_eq!(sent(&mut c), vec![message(10, 0, &[]), message(11, 0, &[])]);

    // The second buffer is still held by the compositor.
    assert_eq!(c.update_state(false, &mut pixels), Step::Fail(ClientFailure::BuffersBusy));
    assert_eq!(feed(&mut c, &message(11, 0, &[])), Ok(true));
    assert!(c.surface_buffers.unwrap().buf_2_free);
    assert_eq!(
        c.update_state(false, &mut pixels),
        Step::ResizeShm { old_size: 128, new_size: 192 }
    );
    assert_eq!(c.shm_resized(), Step::Continue);
    assert_eq!(c.state.status, ClientStatus::Resizing(2));
    assert_eq!(sent(&mut c), vec![message(9, 2, &u32s(&[192]))]);
    let mut pixels = vec![0u8; 192];
    assert_eq!(c.update_state(false, &mut pixels), Step::Continue);
    assert_eq!(c.state.status, ClientStatus::Resizing(3));
    assert_eq!(
        sent(&mut c),
        vec![
            message(9, 0, &u32s(&[12, 0, 6, 4, 24, 0])),
            message(9, 0, &u32s(&[13, 96, 6, 4, 24, 0])),
        ]
    );
    assert_eq!(c.update_state(false, &mut pixels), Step::Continue);
    assert_eq!(c.state.status, ClientStatus::Drawing);
    assert_eq!(c.update_state(false, &mut pixels), Step::Continue);
    assert_eq!(c.state.status, ClientStatus::Idle);
    assert_eq!((c.x_offset, c.y_offset), (2, 1));
    let mut back = vec![0u8; 96];
    back[24 + 8..24 + 16].copy_from_slice(&[25, 50, 100, 128, 254, 0, 0, 255]);
    assert_eq!(&pixels[96..], &back[..]);
}

#[test]
fn ping_is_answered_on_the_next_step() {
    let mut c = client_until_allocation();
    assert_eq!(feed(&mut c, &message(4, 0, &u32s(&[31]))), Ok(true));
    assert_eq!(c.state.pending_ping, Some(31));
    assert!(matches!(step(&mut c, false), Step::AllocateShm(_)));
    assert_eq!(c.state.pending_ping, Some(31));
    assert_eq!(c.create_buffers(5), Step::Continue);
    assert_eq!(c.state.pending_ping, None);
    let reqs = sent(&mut c);
    assert_eq!(reqs.last().unwrap(), &message(4, 3, &u32s(&[31])));
}

#[test]
fn ping_answered_while_waiting_for_events() {
    let mut c = WaylandClient::new(&image()).unwrap();
    step(&mut c, false);
    feed(&mut c, &global(2, b"xdg_wm_base", 1)).unwrap();
    step(&mut c, false);
    step(&mut c, false);
    sent(&mut c);
    assert_eq!(feed(&mut c, &message(3, 0, &u32s(&[8]))), Ok(true));
    assert_eq!(step(&mut c, true), Step::Continue);
    assert_eq!(sent(&mut c), vec![message(3, 3, &u32s(&[8]))]);
}

#[test]
fn reported_errors_make_the_client_exit_with_one() {
    let mut c = WaylandClient::new(&image()).unwrap();
    step(&mut c, false);
    let mut err = u32s(&[1, 0]);
    write_wl_string(b"bad", &mut err);
    let mut events = global(1, b"wl_shm", 1);
    events.extend_from_slice(&message(1, 0, &err));
    assert_eq!(feed(&mut c, &events), Ok(true));
    assert_eq!(c.state.pending_errors.len(), 1);
    assert_eq!(c.state.pending_errors[0].msg, b"bad".to_vec());
    assert_eq!(step(&mut c, true), Step::Continue);
    assert_eq!(step(&mut c, false), Step::Exit(1));
}

#[test]
fn a_global_announced_twice_is_kept_once() {
    let mut c = WaylandClient::new(&image()).unwrap();
    step(&mut c, false);
    let mut events = global(1, b"wl_shm", 1);
    events.extend_from_slice(&global(9, b"wl_shm", 2));
    feed(&mut c, &events).unwrap();
    assert_eq!(c.advertised_interfaces.len(), 1);
    assert_eq!(c.advertised_interfaces[0].unique_name, 9);
    assert_eq!(c.advertised_interfaces[0].version, 2);
}

#[test]
fn incomplete_events_wait_in_the_buffer() {
    let mut c = WaylandClient::new(&image()).unwrap();
    step(&mut c, false);
    let g = global(1, b"wl_shm", 1);
    // Nothing handled, but bytes of an event are pending: handling is still in progress.
    assert_eq!(feed(&mut c, &g[..6]), Ok(true));
    assert!(c.advertised_interfaces.is_empty());
    assert_eq!(c.conn.received_bytes(), g[..6].to_vec());
    assert_eq!(feed(&mut c, &g[6..]), Ok(true));
    assert_eq!(c.advertised_interfaces.len(), 1);
    assert!(c.conn.received_bytes().is_empty());
    assert_eq!(c.handle_events(), Ok(false));
}

#[test]
fn malformed_events_are_reported() {
    let mut c = WaylandClient::new(&image()).unwrap();
    step(&mut c, false);
    assert_eq!(feed(&mut c, &message(2, 0, &[1, 2])), Err(ClientFailure::MalformedEvent));

    let mut c = WaylandClient::new(&image()).unwrap();
    let mut short = 2u32.to_ne_bytes().to_vec();
    short.extend_from_slice(&0u16.to_ne_bytes());
    short.extend_from_slice(&4u16.to_ne_bytes());
    assert_eq!(feed(&mut c, &short), Err(ClientFailure::MalformedHeader));
}

#[test]
fn unknown_capabilities_are_refused() {
    let mut c = client_until_allocation();
    let mut caps = u32s(&[8]);
    caps.extend_from_slice(&u32s(&[1, 3]));
    assert_eq!(feed(&mut c, &message(8, 3, &caps)), Ok(true));
    let mut bad = u32s(&[4]);
    bad.extend_from_slice(&u32s(&[9]));
    assert_eq!(feed(&mut c, &message(8, 3, &bad)), Err(ClientFailure::MalformedEvent));
}

#[test]
fn continuations_out_of_sequence_fail() {
    let mut c = WaylandClient::new(&image()).unwrap();
    assert_eq!(c.create_buffers(1), Step::Fail(ClientFailure::OutOfSequence));
    assert_eq!(c.shm_resized(), Step::Fail(ClientFailure::OutOfSequence));
}

#[test]
fn drawing_without_buffers_fails() {
    let mut c = WaylandClient::new(&image()).unwrap();
    assert_eq!(c.draw(&mut []), Err(ClientFailure::DrawBufferMissing));
}

#[test]
fn drawing_into_a_held_buffer_fails() {
    let mut c = client_until_allocation();
    step(&mut c, false);
    c.create_buffers(1);
    sent(&mut c);
    let mut pixels = vec![0u8; 128];
    assert_eq!(c.draw(&mut pixels), Ok(()));
    // The same offsets draw nothing again.
    assert_eq!(c.draw(&mut pixels), Ok(()));
    assert_eq!(sent(&mut c).len(), 3);
    // New offsets draw into the other, released buffer.
    c.x_offset = 0;
    assert_eq!(c.draw(&mut pixels), Ok(()));
    assert_eq!(sent(&mut c)[0], message(6, 1, &u32s(&[10, 0, 0])));
    // Both buffers are now held by the compositor.
    let sb = c.surface_buffers.unwrap();
    assert_eq!(c.draw(&mut pixels), Err(ClientFailure::BufferNotReleased(sb.buf_2_id)));
}

#[test]
fn a_window_smaller_than_the_image_fails() {
    let mut c = client_until_allocation();
    step(&mut c, false);
    c.create_buffers(1);
    c.window_width = 1;
    let mut pixels = vec![0u8; 128];
    assert_eq!(c.draw(&mut pixels), Err(ClientFailure::WindowSmallerThanImage));
}

#[test]
fn buffers_alternate_on_commit() {
    let mut sb = SurfaceBuffers::new(2, 3);
    assert_eq!(sb.shm, ShmGeometry { size: 48, height: 3, width: 2, stride: 8 });
    sb.set_ids(5, 6);
    assert_eq!(sb.commit_draw(), 6);
    assert!(!sb.first_buf_front && !sb.buf_2_free && sb.buf_1_free);
    sb.release_buf(6);
    assert!(sb.buf_2_free);
    assert_eq!(sb.commit_draw(), 5);
    assert!(sb.first_buf_front && !sb.buf_1_free);
    sb.release_buf(5);
    assert!(sb.buf_1_free);
}

#[test]
fn draw_buffer_is_the_back_half() {
    let mut sb = SurfaceBuffers::new(1, 1);
    let mut pixels: Vec<u8> = (0..8).collect();
    assert_eq!(sb.get_draw_buffer_mut(&mut pixels), &[4u8, 5, 6, 7][..]);
    sb.commit_draw();
    sb.release_buf(0);
    sb.get_draw_buffer_mut(&mut pixels)[0] = 99;
    assert_eq!(pixels, vec![99, 1, 2, 3, 4, 5, 6, 7]);
}

#[test]
fn buffers_resize_grows_but_never_shrinks() {
    let mut sb = SurfaceBuffers::new(4, 4);
    assert_eq!(sb.resize(2, 2), (128, 128));
    assert_eq!((sb.width, sb.height, sb.shm.stride), (2, 2, 8));
    assert_eq!(sb.resize(8, 4), (128, 256));
    assert!(sb.first_buf_front);
}

#[test]
fn geometry_fits_and_resizes() {
    assert!(ShmGeometry::fits(4, 4));
    assert!(!ShmGeometry::fits(u32::MAX, 1));
    assert!(!ShmGeometry::fits(0x4000_0000, 2));
    let mut g = ShmGeometry::new(3, 2);
    assert_eq!(g, ShmGeometry { size: 48, height: 2, width: 3, stride: 12 });
    assert_eq!(g.resize(1, 1), (48, 48));
    assert_eq!(g, ShmGeometry { size: 48, height: 1, width: 1, stride: 4 });
    assert_eq!(g.resize(5, 5), (48, 200));
}

#[test]
fn a_window_too_large_for_shared_memory_fails() {
    let mut c = client_configured(&image(), 0x4000_0000, 4);
    assert_eq!(step(&mut c, false), Step::Fail(ClientFailure::ShmTooLarge));
    assert_eq!(c.state.status, ClientStatus::CreatingBuffers);
}

#[test]
fn an_image_reaching_past_the_buffer_fails() {
    // The buffers are as high as the window is wide, so six rows do not fit under one row of
    // offset in a four by eight window.
    let png = encode_rgba(2, 6, &[1u8; 48]);
    let mut c = client_configured(&png, 4, 8);
    assert!(matches!(step(&mut c, false), Step::AllocateShm(_)));
    assert_eq!(c.create_buffers(1), Step::Continue);
    let mut pixels = vec![0u8; 128];
    assert_eq!(c.update_state(false, &mut pixels), Step::Fail(ClientFailure::ImageOutsideBuffer));
    assert_eq!(c.state.status, ClientStatus::Drawing);
}

#[test]
fn a_committed_buffer_stays_busy_until_released() {
    let mut sb = SurfaceBuffers::new(1, 1);
    sb.set_ids(5, 6);
    let front = sb.commit_draw();
    assert_eq!(front, 6);
    // Releasing the other buffer keeps it busy.
    sb.release_buf(5);
    assert!(!sb.buf_2_free);
    // Committing again brings the other buffer forward; the first stays busy.
    assert_eq!(sb.commit_draw(), 5);
    assert!(!sb.buf_2_free && !sb.buf_1_free);
    sb.release_buf(6);
    assert!(sb.buf_2_free && !sb.buf_1_free);
}
