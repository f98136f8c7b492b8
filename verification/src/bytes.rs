//! Native-endian integer encodings and the 4-byte padding rule of the wire format.
use vstd::endian::{endianness, Endian};
use vstd::prelude::*;

verus! {

/// The little-endian value of four bytes.
pub open spec fn le_u32_value(b: Seq<u8>) -> int {
    b[0] + 256 * b[1] + 65536 * b[2] + 16777216 * b[3]
}

/// The value of four bytes read in the byte order of the executing machine.
pub open spec fn ne_u32_value(b: Seq<u8>) -> u32 {
    match endianness() {
        Endian::Little => le_u32_value(b) as u32,
        Endian::Big => le_u32_value(b.reverse()) as u32,
    }
}

/// The four bytes of `v` with the least significant first.
pub open spec fn le_u32_bytes(v: u32) -> Seq<u8> {
    seq![(v % 256) as u8, ((v / 256) % 256) as u8, ((v / 65536) % 256) as u8, (v / 16777216) as u8]
}

/// The four bytes of `v` in the byte order of the executing machine.
pub open spec fn ne_u32_bytes(v: u32) -> Seq<u8> {
    match endianness() {
        Endian::Little => le_u32_bytes(v),
        Endian::Big => le_u32_bytes(v).reverse(),
    }
}

/// The little-endian value of two bytes.
pub open spec fn le_u16_value(b: Seq<u8>) -> int {
    b[0] + 256 * b[1]
}

/// The value of two bytes read in the byte order of the executing machine.
pub open spec fn ne_u16_value(b: Seq<u8>) -> u16 {
    match endianness() {
        Endian::Little => le_u16_value(b) as u16,
        Endian::Big => le_u16_value(b.reverse()) as u16,
    }
}

/// The two bytes of `v` with the least significant first.
pub open spec fn le_u16_bytes(v: u16) -> Seq<u8> {
    seq![(v % 256) as u8, (v / 256) as u8]
}

/// The two bytes of `v` in the byte order of the executing machine.
pub open spec fn ne_u16_bytes(v: u16) -> Seq<u8> {
    match endianness() {
        Endian::Little => le_u16_bytes(v),
        Endian::Big => le_u16_bytes(v).reverse(),
    }
}

/// The four bytes of the two's complement of `v`, in the byte order of the executing machine.
pub open spec fn ne_i32_bytes(v: i32) -> Seq<u8> {
    ne_u32_bytes(v as u32)
}

/// `n` rounded up to the next multiple of four.
pub open spec fn roundup4(n: int) -> int {
    (n + 3) / 4 * 4
}

/// Decoding the encoding of a `u32` gives the value back.
pub proof fn lemma_u32_ne_roundtrip(v: u32)
    ensures
        ne_u32_bytes(v).len() == 4,
        ne_u32_value(ne_u32_bytes(v)) == v,
{
    assert(le_u32_value(le_u32_bytes(v)) == v);
    assert(le_u32_bytes(v).reverse().reverse() =~= le_u32_bytes(v));
}

/// The digits of a four-byte little-endian number are its bytes.
proof fn lemma_le_u32_digits(b0: int, b1: int, b2: int, b3: int)
    requires
        0 <= b0 < 256,
        0 <= b1 < 256,
        0 <= b2 < 256,
        0 <= b3 < 256,
    ensures
        ({
            let v = b0 + 256 * b1 + 65536 * b2 + 16777216 * b3;
            &&& 0 <= v < 0x1_0000_0000
            &&& v % 256 == b0
            &&& (v / 256) % 256 == b1
            &&& (v / 65536) % 256 == b2
            &&& v / 16777216 == b3
        }),
{
    let v = b0 + 256 * b1 + 65536 * b2 + 16777216 * b3;
    assert(v % 256 == b0 && v / 256 == b1 + 256 * b2 + 65536 * b3) by (nonlinear_arith)
        requires
            v == b0 + 256 * b1 + 65536 * b2 + 16777216 * b3,
            0 <= b0 < 256,
            0 <= b1,
            0 <= b2,
            0 <= b3,
    ;
    assert(v / 65536 == b2 + 256 * b3) by (nonlinear_arith)
        requires
            v == b0 + 256 * b1 + 65536 * b2 + 16777216 * b3,
            0 <= b0 < 256,
            0 <= b1 < 256,
            0 <= b2,
            0 <= b3,
    ;
    assert(v / 16777216 == b3) by (nonlinear_arith)
        requires
            v == b0 + 256 * b1 + 65536 * b2 + 16777216 * b3,
            0 <= b0 < 256,
            0 <= b1 < 256,
            0 <= b2 < 256,
            0 <= b3,
    ;
    assert((b1 + 256 * b2 + 65536 * b3) % 256 == b1) by (nonlinear_arith)
        requires
            0 <= b1 < 256,
            0 <= b2,
            0 <= b3,
    ;
    assert((b2 + 256 * b3) % 256 == b2) by (nonlinear_arith)
        requires
            0 <= b2 < 256,
            0 <= b3,
    ;
}

/// Encoding the value of four bytes gives the bytes back.
pub proof fn lemma_u32_ne_bytes_roundtrip(b: Seq<u8>)
    requires
        b.len() == 4,
    ensures
        ne_u32_bytes(ne_u32_value(b)) == b,
{
    lemma_le_u32_digits(b[0] as int, b[1] as int, b[2] as int, b[3] as int);
    let v = le_u32_value(b);
    assert(le_u32_bytes(v as u32) =~= b);
    let r = b.reverse();
    lemma_le_u32_digits(r[0] as int, r[1] as int, r[2] as int, r[3] as int);
    let w = le_u32_value(r);
    assert(le_u32_bytes(w as u32) =~= r);
    assert(r.reverse() =~= b);
}

/// Rounding up to a multiple of four adds less than four.
pub proof fn lemma_roundup4(n: int)
    requires
        n >= 0,
    ensures
        n <= roundup4(n) < n + 4,
        roundup4(n) % 4 == 0,
{
}

/// Decoding the encoding of a `u16` gives the value back.
pub proof fn lemma_u16_ne_roundtrip(v: u16)
    ensures
        ne_u16_bytes(v).len() == 2,
        ne_u16_value(ne_u16_bytes(v)) == v,
{
    assert(le_u16_bytes(v).reverse().reverse() =~= le_u16_bytes(v));
}

/// Encoding the value of two bytes gives the bytes back.
pub proof fn lemma_u16_ne_bytes_roundtrip(b: Seq<u8>)
    requires
        b.len() == 2,
    ensures
        ne_u16_bytes(ne_u16_value(b)) == b,
{
    let r = b.reverse();
    assert(le_u16_bytes(le_u16_value(b) as u16) =~= b);
    assert(le_u16_bytes(le_u16_value(r) as u16) =~= r);
    assert(r.reverse() =~= b);
}

/// `u32::from_ne_bytes`: the value of four bytes in the machine's byte order.
#[verifier::external_body]
pub(crate) fn u32_from_ne_bytes(bytes: [u8; 4]) -> (v: u32)
    ensures
        v == ne_u32_value(bytes@),
{
    u32::from_ne_bytes(bytes)
}

/// `u32::to_ne_bytes`: the four bytes of a value in the machine's byte order.
#[verifier::external_body]
pub(crate) fn u32_to_ne_bytes(v: u32) -> (bytes: [u8; 4])
    ensures
        bytes@ == ne_u32_bytes(v),
{
    v.to_ne_bytes()
}

/// `u16::from_ne_bytes`: the value of two bytes in the machine's byte order.
#[verifier::external_body]
pub(crate) fn u16_from_ne_bytes(bytes: [u8; 2]) -> (v: u16)
    ensures
        v == ne_u16_value(bytes@),
{
    u16::from_ne_bytes(bytes)
}

/// `u16::to_ne_bytes`: the two bytes of a value in the machine's byte order.
#[verifier::external_body]
pub(crate) fn u16_to_ne_bytes(v: u16) -> (bytes: [u8; 2])
    ensures
        bytes@ == ne_u16_bytes(v),
{
    v.to_ne_bytes()
}

/// `i32::to_ne_bytes`: the four two's-complement bytes of a value in the machine's byte order.
#[verifier::external_body]
pub(crate) fn i32_to_ne_bytes(v: i32) -> (bytes: [u8; 4])
    ensures
        bytes@ == ne_i32_bytes(v),
{
    v.to_ne_bytes()
}

/// Rounds `n` up to the next multiple of four.
pub fn roundup_4(n: usize) -> (r: usize)
    requires
        n + 3 <= usize::MAX,
    ensures
        r == roundup4(n as int),
        r % 4 == 0,
        n <= r < n + 4,
{
    (n + 3) / 4 * 4
}

} // verus!

verus! {

/// Appends the machine-order bytes of `v` to `buf`.
pub fn push_ne_u32(buf: &mut Vec<u8>, v: u32)
    ensures
        final(buf)@ == old(buf)@ + ne_u32_bytes(v),
{
    let b = u32_to_ne_bytes(v);
    buf.push(b[0]);
    buf.push(b[1]);
    buf.push(b[2]);
    buf.push(b[3]);
    assert(buf@ =~= old(buf)@ + ne_u32_bytes(v));
}

/// Appends the machine-order two's-complement bytes of `v` to `buf`.
pub fn push_ne_i32(buf: &mut Vec<u8>, v: i32)
    ensures
        final(buf)@ == old(buf)@ + ne_i32_bytes(v),
{
    let b = i32_to_ne_bytes(v);
    buf.push(b[0]);
    buf.push(b[1]);
    buf.push(b[2]);
    buf.push(b[3]);
    assert(buf@ =~= old(buf)@ + ne_i32_bytes(v));
}

} // verus!
