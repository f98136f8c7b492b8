use wlclient::bytes::{push_ne_i32, push_ne_u32, roundup_4};
use wlclient::wayland::{
    check_wl_array, check_wl_string, parse_wl_header, read_wl_array, read_wl_string, read_wl_u16,
    read_wl_u32, write_wl_string, MsgBufReader, WL_HEADER_SIZE,
};

fn message(object_id: u32, opcode: u16, args: &[u8]) -> Vec<u8> {
    let mut m = Vec::new();
    m.extend_from_slice(&object_id.to_ne_bytes());
    m.extend_from_slice(&opcode.to_ne_bytes());
    m.extend_from_slice(&((8 + args.len()) as u16).to_ne_bytes());
    m.extend_from_slice(args);
    m
}

#[test]
fn read_u32_takes_four_bytes() {
    let mut buf = 0xdead_beefu32.to_ne_bytes().to_vec();
    buf.push(7);
    let (v, rest) = read_wl_u32(&buf);
    assert_eq!(v, 0xdead_beef);
    assert_eq!(rest, &[7u8][..]);
}

#[test]
fn read_u16_takes_two_bytes() {
    let mut buf = 0x1234u16.to_ne_bytes().to_vec();
    buf.extend_from_slice(&[9, 8]);
    let (v, rest) = read_wl_u16(&buf);
    assert_eq!(v, 0x1234);
    assert_eq!(rest, &[9u8, 8][..]);
}

#[test]
fn header_parses_id_opcode_and_size() {
    let m = message(3, 2, &[1, 2, 3, 4]);
    let (h, rest) = parse_wl_header(&m);
    assert_eq!(h.object_id, 3);
    assert_eq!(h.opcode, 2);
    assert_eq!(h.msg_size, 12);
    assert_eq!(rest, &[1u8, 2, 3, 4][..]);
    assert_eq!(WL_HEADER_SIZE, 8);
}

#[test]
fn roundup_to_multiples_of_four() {
    assert_eq!(roundup_4(0), 0);
    assert_eq!(roundup_4(1), 4);
    assert_eq!(roundup_4(4), 4);
    assert_eq!(roundup_4(5), 8);
    assert_eq!(roundup_4(7), 8);
}

#[test]
fn push_helpers_append_machine_order() {
    let mut buf = vec![1u8];
    push_ne_u32(&mut buf, 0x0102_0304);
    push_ne_i32(&mut buf, -2);
    let mut expected = vec![1u8];
    expected.extend_from_slice(&0x0102_0304u32.to_ne_bytes());
    expected.extend_from_slice(&(-2i32).to_ne_bytes());
    assert_eq!(buf, expected);
}

#[test]
fn write_string_pads_to_four() {
    let mut buf = vec![0xaau8];
    write_wl_string(b"wl_shm", &mut buf);
    let mut expected = vec![0xaau8];
    expected.extend_from_slice(&7u32.to_ne_bytes());
    expected.extend_from_slice(b"wl_shm\0\0");
    assert_eq!(buf, expected);
}

#[test]
fn write_empty_string_is_one_nul_and_padding() {
    let mut buf = Vec::new();
    write_wl_string(b"", &mut buf);
    let mut expected = 1u32.to_ne_bytes().to_vec();
    expected.extend_from_slice(&[0, 0, 0, 0]);
    assert_eq!(buf, expected);
}

#[test]
fn string_roundtrip_gives_content_and_rest() {
    let mut buf = Vec::new();
    write_wl_string(b"xdg_wm_base", &mut buf);
    buf.extend_from_slice(&[5, 6]);
    assert!(check_wl_string(&buf));
    let (size, padded, s, rest) = read_wl_string(&buf);
    assert_eq!(size, 12);
    assert_eq!(padded, 16);
    assert_eq!(s, b"xdg_wm_base");
    assert_eq!(rest, &[5u8, 6][..]);
}

#[test]
fn string_of_four_bytes_with_nul_needs_no_padding() {
    let mut buf = Vec::new();
    write_wl_string(b"abc", &mut buf);
    assert_eq!(buf.len(), 8);
    let (size, padded, s, rest) = read_wl_string(&buf);
    assert_eq!((size, padded), (4, 8));
    assert_eq!(s, b"abc");
    assert!(rest.is_empty());
}

#[test]
fn malformed_strings_are_refused() {
    // too short for the length
    assert!(!check_wl_string(&[1, 0]));
    // zero length
    let mut zero = 0u32.to_ne_bytes().to_vec();
    zero.extend_from_slice(&[0, 0, 0, 0]);
    assert!(!check_wl_string(&zero));
    // length past the end
    let mut long = 9u32.to_ne_bytes().to_vec();
    long.extend_from_slice(b"abc\0");
    assert!(!check_wl_string(&long));
    // no terminating nul
    let mut unterminated = 3u32.to_ne_bytes().to_vec();
    unterminated.extend_from_slice(b"abcd");
    assert!(!check_wl_string(&unterminated));
    // nul inside
    let mut inner = 4u32.to_ne_bytes().to_vec();
    inner.extend_from_slice(b"a\0c\0");
    assert!(!check_wl_string(&inner));
    // padding missing
    let mut unpadded = 2u32.to_ne_bytes().to_vec();
    unpadded.extend_from_slice(b"a\0");
    assert!(!check_wl_string(&unpadded));
}

#[test]
fn array_reads_u32_elements() {
    let mut buf = 8u32.to_ne_bytes().to_vec();
    buf.extend_from_slice(&2u32.to_ne_bytes());
    buf.extend_from_slice(&4u32.to_ne_bytes());
    buf.push(42);
    assert!(check_wl_array(&buf));
    let (elems, rest) = read_wl_array(&buf);
    assert_eq!(elems, vec![2, 4]);
    assert_eq!(rest, &[42u8][..]);
}

#[test]
fn empty_array_reads_nothing() {
    let buf = 0u32.to_ne_bytes().to_vec();
    assert!(check_wl_array(&buf));
    let (elems, rest) = read_wl_array(&buf);
    assert!(elems.is_empty());
    assert!(rest.is_empty());
}

#[test]
fn malformed_arrays_are_refused() {
    assert!(!check_wl_array(&[0, 0]));
    let mut odd = 3u32.to_ne_bytes().to_vec();
    odd.extend_from_slice(&[1, 2, 3]);
    assert!(!check_wl_array(&odd));
    let mut long = 8u32.to_ne_bytes().to_vec();
    long.extend_from_slice(&[1, 2, 3, 4]);
    assert!(!check_wl_array(&long));
}

#[test]
fn reader_yields_complete_messages_in_order() {
    let mut buf = message(2, 0, &[1, 2, 3, 4]);
    buf.extend_from_slice(&message(5, 3, &[]));
    let mut reader = MsgBufReader::new(&buf);
    let (h1, a1, n1) = reader.next().unwrap();
    assert_eq!((h1.object_id, h1.opcode, h1.msg_size), (2, 0, 12));
    assert_eq!(a1, &[1u8, 2, 3, 4][..]);
    assert_eq!(n1, 4);
    let (h2, a2, n2) = reader.next().unwrap();
    assert_eq!((h2.object_id, h2.opcode, h2.msg_size), (5, 3, 8));
    assert!(a2.is_empty());
    assert_eq!(n2, 0);
    assert!(reader.next().is_none());
    assert_eq!(reader.finish(), 20);
}

#[test]
fn reader_stops_before_a_partial_message() {
    let mut buf = message(2, 0, &[1, 2, 3, 4]);
    let partial = message(7, 1, &[9, 9, 9, 9, 9, 9, 9, 9]);
    buf.extend_from_slice(&partial[..10]);
    let mut reader = MsgBufReader::new(&buf);
    assert!(reader.next().is_some());
    assert!(reader.next().is_none());
    assert_eq!(reader.finish(), 12);
}

#[test]
fn reader_stops_before_a_partial_header() {
    let buf = vec![1u8, 0, 0];
    let mut reader = MsgBufReader::new(&buf);
    assert!(!reader.at_malformed_header());
    assert!(reader.next().is_none());
    assert_eq!(reader.finish(), 0);
}

#[test]
fn reader_flags_a_header_smaller_than_a_header() {
    let mut buf = 4u32.to_ne_bytes().to_vec();
    buf.extend_from_slice(&0u16.to_ne_bytes());
    buf.extend_from_slice(&4u16.to_ne_bytes());
    let reader = MsgBufReader::new(&buf);
    assert!(reader.at_malformed_header());
}

#[test]
fn finish_of_a_fresh_reader_is_zero() {
    let reader = MsgBufReader::new(&[]);
    assert_eq!(reader.finish(), 0);
}

#[test]
fn yielded_messages_encode_back_to_the_consumed_bytes() {
    let mut buf = message(2, 0, &[1, 2, 3, 4]);
    buf.extend_from_slice(&message(5, 3, &[]));
    buf.extend_from_slice(&message(9, 1, &[7, 7, 7, 7, 7, 7, 7, 7]));
    buf.extend_from_slice(&[1, 0, 0]);
    let mut reader = MsgBufReader::new(&buf);
    let mut again = Vec::new();
    let mut sizes = 0;
    while let Some((h, args, n)) = reader.next() {
        assert_eq!(n, args.len());
        assert_eq!(h.msg_size, n + 8);
        again.extend_from_slice(&message(h.object_id, h.opcode, args));
        sizes += h.msg_size;
    }
    let offset = reader.finish();
    assert_eq!(offset, sizes);
    assert_eq!(offset, 36);
    assert_eq!(&buf[..offset], &again[..]);
}
