//! Reading and writing the primitive argument types of the Wayland wire format.
use crate::bytes::{lemma_roundup4, lemma_u16_ne_roundtrip, lemma_u32_ne_roundtrip, ne_u16_bytes, ne_u16_value, ne_u32_bytes, ne_u32_value, roundup4, roundup_4, u16_from_ne_bytes, u32_from_ne_bytes, u32_to_ne_bytes};
use vstd::prelude::*;

verus! {

/// Size in bytes of a message header: object id, opcode and message size.
pub const WL_HEADER_SIZE: usize = 8;

/// The `u32` stored in the first four bytes of `b`.
pub open spec fn spec_u32_at(b: Seq<u8>, i: int) -> u32 {
    ne_u32_value(b.subrange(i, i + 4))
}

/// The `u16` stored in the two bytes of `b` from position `i`.
pub open spec fn spec_u16_at(b: Seq<u8>, i: int) -> u16 {
    ne_u16_value(b.subrange(i, i + 2))
}

/// Reads a u32 from a &[u8] buffer, returns the value and returns a new buffer/slice with the
/// offset moved 4 bytes ahead.
pub fn read_wl_u32(buf: &[u8]) -> (r: (u32, &[u8]))
    requires
        buf@.len() >= 4,
    ensures
        r.0 == spec_u32_at(buf@, 0),
        r.1@ == buf@.subrange(4, buf@.len() as int),
{
    let bytes = [buf[0], buf[1], buf[2], buf[3]];
    assert(bytes@ =~= buf@.subrange(0, 4));
    let val = u32_from_ne_bytes(bytes);
    (val, &buf[4..buf.len()])
}

/// Reads a u16 from a &[u8] buffer, returns the value and returns a new buffer/slice with the
/// offset moved 2 bytes ahead.
pub fn read_wl_u16(buf: &[u8]) -> (r: (u16, &[u8]))
    requires
        buf@.len() >= 2,
    ensures
        r.0 == spec_u16_at(buf@, 0),
        r.1@ == buf@.subrange(2, buf@.len() as int),
{
    let bytes = [buf[0], buf[1]];
    assert(bytes@ =~= buf@.subrange(0, 2));
    let val = u16_from_ne_bytes(bytes);
    (val, &buf[2..buf.len()])
}

} // verus!

verus! {

/// No byte of `s` is zero: `s` can be the content of a C string.
pub open spec fn no_nul(s: Seq<u8>) -> bool {
    forall|i: int| 0 <= i < s.len() ==> s[i] != 0
}

/// `n` zero bytes.
pub open spec fn zeros(n: int) -> Seq<u8> {
    Seq::new(n as nat, |i: int| 0u8)
}

/// `buf` starts with a well-formed wire string: a `u32` length `n` of at least one, then `n`
/// bytes whose last is the terminating nul and no other is nul, padded to a multiple of four,
/// all of it inside `buf`.
pub open spec fn wl_string_ok(buf: Seq<u8>) -> bool {
    buf.len() >= 4 && {
        let n = spec_u32_at(buf, 0) as int;
        &&& roundup4(n) + 4 <= buf.len()
        &&& n >= 1
        &&& buf[4 + n - 1] == 0
        &&& no_nul(buf.subrange(4, 4 + n - 1))
    }
}

/// The announced size (terminating nul included) of the wire string at the start of `buf`.
pub open spec fn wl_string_size(buf: Seq<u8>) -> int {
    spec_u32_at(buf, 0) as int
}

/// The bytes that encode the C string with content `s`: its size with the nul, the content,
/// the nul, and zero padding up to a multiple of four.
pub open spec fn wl_string_bytes(s: Seq<u8>) -> Seq<u8> {
    ne_u32_bytes((s.len() + 1) as u32) + s + zeros(roundup4(s.len() + 1int) - s.len())
}

/// `buf` starts with a well-formed wire array: a `u32` byte length that is a multiple of four,
/// then that many bytes, all inside `buf`.
pub open spec fn wl_array_ok(buf: Seq<u8>) -> bool {
    buf.len() >= 4 && {
        let n = spec_u32_at(buf, 0) as int;
        &&& n % 4 == 0
        &&& n + 4 <= buf.len()
    }
}

/// The `u32` elements of the wire array at the start of `buf`.
pub open spec fn wl_array_elems(buf: Seq<u8>) -> Seq<u32> {
    Seq::new((spec_u32_at(buf, 0) / 4) as nat, |i: int| spec_u32_at(buf, 4 + 4 * i))
}

/// Returns the string size, padded size (including the 32bit size number), the string, and a new slice/buffer pointing to the end of
/// the string
///
/// The string is returned as its content bytes, without the terminating nul.
pub fn read_wl_string(buf: &[u8]) -> (r: (usize, usize, &[u8], &[u8]))
    requires
        wl_string_ok(buf@),
    ensures
        r.0 == wl_string_size(buf@),
        r.1 == roundup4(wl_string_size(buf@)) + 4,
        r.2@ == buf@.subrange(4, 4 + wl_string_size(buf@) - 1),
        r.3@ == buf@.subrange(r.1 as int, buf@.len() as int),
{
    let (str_size, _) = read_wl_u32(buf);
    let str_size = str_size as usize;
    let len = buf.len();
    proof {
        lemma_roundup4(str_size as int);
        assert(len == buf@.len());
    }
    let padded_str_size = roundup_4(str_size) + 4;
    let parsed_str = &buf[4..4 + str_size - 1];
    (str_size, padded_str_size, parsed_str, &buf[padded_str_size..buf.len()])
}

/// Tells whether `buf` starts with a well-formed wire string.
pub fn check_wl_string(buf: &[u8]) -> (ok: bool)
    ensures
        ok == wl_string_ok(buf@),
{
    if buf.len() < 4 {
        return false;
    }
    let (n, _) = read_wl_u32(buf);
    let n = n as usize;
    if n == 0 || n > buf.len() - 4 {
        return false;
    }
    proof {
        lemma_roundup4(n as int);
    }
    if roundup_4(n) > buf.len() - 4 {
        return false;
    }
    if buf[4 + n - 1] != 0 {
        return false;
    }
    let mut i: usize = 4;
    while i < 4 + n - 1
        invariant
            n >= 1,
            n == spec_u32_at(buf@, 0),
            4 <= i <= 4 + n - 1,
            n <= buf.len() - 4,
            4 + n <= buf@.len(),
            forall|j: int| 4 <= j < i ==> buf@[j] != 0,
        decreases 4 + n - 1 - i,
    {
        if buf[i] == 0 {
            assert(buf@.subrange(4, 4 + n - 1)[i - 4] == 0);
            return false;
        }
        i = i + 1;
    }
    true
}

/// Packs a string into a Wayland protocol-compatible `string` bytes and writes to a buffer
///
/// The string is given as its content bytes, without the terminating nul.
pub fn write_wl_string(string: &[u8], buf: &mut Vec<u8>)
    requires
        no_nul(string@),
        string@.len() + 1 <= u32::MAX,
        string@.len() + 4 <= usize::MAX,
    ensures
        final(buf)@ == old(buf)@ + wl_string_bytes(string@),
{
    let str_len = string.len() + 1;
    let padded_len = roundup_4(str_len);
    let size = u32_to_ne_bytes(str_len as u32);
    let ghost start = buf@;
    buf.push(size[0]);
    buf.push(size[1]);
    buf.push(size[2]);
    buf.push(size[3]);
    assert(buf@ =~= start + ne_u32_bytes(str_len as u32));
    let ghost mid = buf@;
    let mut i: usize = 0;
    while i < string.len()
        invariant
            i <= string@.len(),
            buf@ == mid + string@.subrange(0, i as int),
        decreases string@.len() - i,
    {
        buf.push(string[i]);
        i = i + 1;
        assert(buf@ =~= mid + string@.subrange(0, i as int));
    }
    let ghost mid2 = buf@;
    let mut j: usize = string.len();
    while j < padded_len
        invariant
            string@.len() <= j <= padded_len,
            padded_len == roundup4(string@.len() + 1int),
            buf@ == mid2 + zeros(j - string@.len()),
        decreases padded_len - j,
    {
        buf.push(0u8);
        j = j + 1;
        assert(buf@ =~= mid2 + zeros(j - string@.len()));
    }
    assert(string@.subrange(0, string@.len() as int) =~= string@);
    assert(buf@ =~= old(buf)@ + wl_string_bytes(string@));
}

/// Reads a Wayland array (of bytes), returns the array as u32 values and returns a new
/// buffer/slice with the offset moved to the end of the array.
pub fn read_wl_array(buf: &[u8]) -> (r: (Vec<u32>, &[u8]))
    requires
        wl_array_ok(buf@),
    ensures
        r.0@ == wl_array_elems(buf@),
        r.1@ == buf@.subrange(4 + wl_string_size(buf@), buf@.len() as int),
{
    let (size, rest) = read_wl_u32(buf);
    let size = size as usize;
    let mut arr: Vec<u32> = Vec::new();
    let mut k: usize = 0;
    while k < size
        invariant
            k % 4 == 0,
            k <= size,
            size % 4 == 0,
            size == spec_u32_at(buf@, 0),
            size + 4 <= buf@.len(),
            rest@ == buf@.subrange(4, buf@.len() as int),
            arr@.len() == k / 4,
            forall|i: int| 0 <= i < k / 4 ==> arr@[i] == spec_u32_at(buf@, 4 + 4 * i),
        decreases size - k,
    {
        let (v, _) = read_wl_u32(&rest[k..k + 4]);
        proof {
            assert(rest@.subrange(k as int, k + 4).subrange(0, 4) =~= buf@.subrange(4 + k, 4 + k + 4));
        }
        arr.push(v);
        k = k + 4;
    }
    assert(arr@ =~= wl_array_elems(buf@));
    (arr, &rest[size..rest.len()])
}

/// Tells whether `buf` starts with a well-formed wire array.
pub fn check_wl_array(buf: &[u8]) -> (ok: bool)
    ensures
        ok == wl_array_ok(buf@),
{
    if buf.len() < 4 {
        return false;
    }
    let (n, _) = read_wl_u32(buf);
    let n = n as usize;
    n % 4 == 0 && n <= buf.len() - 4
}

/// A parsed message header.
#[derive(Debug, Clone, Copy)]
pub struct WaylandHeader {
    pub object_id: u32,
    pub opcode: u16,
    pub msg_size: usize,
}

/// The header stored in the first eight bytes of `buf`.
pub open spec fn spec_header(buf: Seq<u8>) -> WaylandHeader {
    WaylandHeader {
        object_id: spec_u32_at(buf, 0),
        opcode: spec_u16_at(buf, 4),
        msg_size: spec_u16_at(buf, 6) as usize,
    }
}

/// parses the [WaylandHeader] from a message buffer (&[u8] slice) and returns the header and a new
/// slice with an offset that points at the arguments
pub fn parse_wl_header(buf: &[u8]) -> (r: (WaylandHeader, &[u8]))
    requires
        buf@.len() >= 8,
    ensures
        r.0 == spec_header(buf@),
        r.1@ == buf@.subrange(8, buf@.len() as int),
{
    let (object_id, buf2) = read_wl_u32(buf);
    let (opcode, buf3) = read_wl_u16(buf2);
    let (msg_size, buf4) = read_wl_u16(buf3);
    proof {
        assert(buf2@.subrange(0, 2) =~= buf@.subrange(4, 6));
        assert(buf3@.subrange(0, 2) =~= buf@.subrange(6, 8));
    }
    let msg_size = msg_size as usize;
    let header = WaylandHeader { object_id, opcode, msg_size };
    (header, buf4)
}

} // verus!

verus! {

/// The bytes of a request or event: object id, opcode, total size, then the arguments.
pub open spec fn message_bytes(object_id: u32, opcode: u16, args: Seq<u8>) -> Seq<u8> {
    ne_u32_bytes(object_id) + ne_u16_bytes(opcode) + ne_u16_bytes((8 + args.len() as int) as u16) + args
}

/// Reading back an encoded string gives its content, its announced and padded sizes, and
/// whatever followed it.
pub proof fn lemma_wl_string_roundtrip(s: Seq<u8>, rest: Seq<u8>)
    requires
        no_nul(s),
        s.len() + 1 <= u32::MAX,
    ensures
        ({
            let buf = wl_string_bytes(s) + rest;
            &&& wl_string_ok(buf)
            &&& wl_string_size(buf) == s.len() + 1
            &&& buf.subrange(4, 4 + wl_string_size(buf) - 1) == s
            &&& buf.subrange(roundup4(wl_string_size(buf)) + 4, buf.len() as int) == rest
            &&& roundup4(wl_string_size(buf)) + 4 == wl_string_bytes(s).len()
        }),
{
    let n = (s.len() + 1) as u32;
    let buf = wl_string_bytes(s) + rest;
    lemma_u32_ne_roundtrip(n);
    lemma_roundup4(n as int);
    assert(buf.subrange(0, 4) =~= ne_u32_bytes(n));
    assert(buf.subrange(4, 4 + s.len() as int) =~= s);
    assert(buf[4 + s.len() as int] == 0);
    assert(buf.subrange(wl_string_bytes(s).len() as int, buf.len() as int) =~= rest);
}

/// The header of an encoded message gives back its object id, opcode and size, and the bytes
/// after the header are the arguments and then whatever followed the message.
pub proof fn lemma_message_roundtrip(object_id: u32, opcode: u16, args: Seq<u8>, rest: Seq<u8>)
    requires
        8 + args.len() <= u16::MAX,
    ensures
        ({
            let buf = message_bytes(object_id, opcode, args) + rest;
            &&& buf.len() >= 8
            &&& spec_header(buf) == (WaylandHeader {
                object_id,
                opcode,
                msg_size: (8 + args.len() as int) as usize,
            })
            &&& message_bytes(object_id, opcode, args).len() == 8 + args.len()
            &&& buf.subrange(8, 8 + args.len() as int) == args
            &&& buf.subrange(8 + args.len() as int, buf.len() as int) == rest
        }),
{
    let size = (8 + args.len() as int) as u16;
    let buf = message_bytes(object_id, opcode, args) + rest;
    lemma_u32_ne_roundtrip(object_id);
    lemma_u16_ne_roundtrip(opcode);
    lemma_u16_ne_roundtrip(size);
    assert(buf.subrange(0, 4) =~= ne_u32_bytes(object_id));
    assert(buf.subrange(4, 6) =~= ne_u16_bytes(opcode));
    assert(buf.subrange(6, 8) =~= ne_u16_bytes(size));
    assert(buf.subrange(8, 8 + args.len() as int) =~= args);
    assert(buf.subrange(8 + args.len() as int, buf.len() as int) =~= rest);
}

} // verus!
