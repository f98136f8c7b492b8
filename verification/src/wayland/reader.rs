//! Splitting received bytes into complete messages.
use crate::bytes::{lemma_u16_ne_bytes_roundtrip, lemma_u32_ne_bytes_roundtrip};
use crate::wayland::codec::{
    lemma_message_roundtrip, message_bytes, parse_wl_header, spec_header, spec_u16_at,
    WaylandHeader, WL_HEADER_SIZE,
};
use vstd::prelude::*;

verus! {

/// `buf` starts with a complete message: a header whose size is at least the header's own
/// size and at most the bytes available.
pub open spec fn has_complete_message(buf: Seq<u8>) -> bool {
    buf.len() >= 8 && 8 <= spec_header(buf).msg_size <= buf.len()
}

/// `buf` starts with a header that announces a size smaller than the header itself.
pub open spec fn has_malformed_header(buf: Seq<u8>) -> bool {
    buf.len() >= 8 && spec_header(buf).msg_size < 8
}

/// The complete messages at the start of `buf`, in order, each as its header and arguments.
pub open spec fn complete_messages(buf: Seq<u8>) -> Seq<(WaylandHeader, Seq<u8>)>
    decreases buf.len(),
{
    if has_complete_message(buf) {
        let h = spec_header(buf);
        seq![(h, buf.subrange(8, h.msg_size as int))] + complete_messages(
            buf.subrange(h.msg_size as int, buf.len() as int),
        )
    } else {
        seq![]
    }
}

/// The number of bytes taken by the complete messages at the start of `buf`.
pub open spec fn complete_len(buf: Seq<u8>) -> nat
    decreases buf.len(),
{
    if has_complete_message(buf) {
        let h = spec_header(buf);
        h.msg_size as nat + complete_len(buf.subrange(h.msg_size as int, buf.len() as int))
    } else {
        0
    }
}

/// The bytes after the complete messages at the start of `buf`.
pub open spec fn incomplete_tail(buf: Seq<u8>) -> Seq<u8>
    decreases buf.len(),
{
    if has_complete_message(buf) {
        let h = spec_header(buf);
        incomplete_tail(buf.subrange(h.msg_size as int, buf.len() as int))
    } else {
        buf
    }
}

/// The complete messages of `buf` are followed by a header that announces a too small size.
pub open spec fn ends_in_malformed_header(buf: Seq<u8>) -> bool {
    has_malformed_header(incomplete_tail(buf))
}

/// The complete messages take a prefix of `buf`, and what follows them is the tail.
pub proof fn lemma_complete_len(buf: Seq<u8>)
    ensures
        complete_len(buf) <= buf.len(),
        incomplete_tail(buf) == buf.subrange(complete_len(buf) as int, buf.len() as int),
    decreases buf.len(),
{
    if has_complete_message(buf) {
        let h = spec_header(buf);
        let rest = buf.subrange(h.msg_size as int, buf.len() as int);
        lemma_complete_len(rest);
        assert(rest.subrange(complete_len(rest) as int, rest.len() as int) =~= buf.subrange(
            complete_len(buf) as int,
            buf.len() as int,
        ));
    } else {
        assert(buf.subrange(0, buf.len() as int) =~= buf);
    }
}

/// The bytes of the messages in order, each encoded again from its header's object id and
/// opcode and from its arguments.
pub open spec fn encoded_messages(msgs: Seq<(WaylandHeader, Seq<u8>)>) -> Seq<u8>
    decreases msgs.len(),
{
    if msgs.len() == 0 {
        Seq::empty()
    } else {
        let m = msgs.last();
        encoded_messages(msgs.drop_last()) + message_bytes(m.0.object_id, m.0.opcode, m.1)
    }
}

/// The sum of the sizes announced by the headers of the messages.
pub open spec fn sizes_sum(msgs: Seq<(WaylandHeader, Seq<u8>)>) -> nat
    decreases msgs.len(),
{
    if msgs.len() == 0 {
        0
    } else {
        sizes_sum(msgs.drop_last()) + msgs.last().0.msg_size as nat
    }
}

/// Reads complete messages one at a time from a buffer of received bytes.
pub struct MsgBufReader<'a> {
    remainder: &'a [u8],
    read_offset: usize,
    /// The whole buffer being read.
    source: Ghost<Seq<u8>>,
    /// The messages yielded so far, in order.
    yielded: Ghost<Seq<(WaylandHeader, Seq<u8>)>>,
}

impl<'a> MsgBufReader<'a> {
    #[verifier::type_invariant]
    spec fn inv(self) -> bool {
        &&& self.read_offset + self.remainder@.len() <= usize::MAX
        &&& self.source@.len() == self.read_offset + self.remainder@.len()
        &&& self.source@.subrange(self.read_offset as int, self.source@.len() as int)
            == self.remainder@
        &&& self.source@.subrange(0, self.read_offset as int) == encoded_messages(self.yielded@)
        &&& self.read_offset == sizes_sum(self.yielded@)
    }

    /// The bytes that have not been read yet.
    pub closed spec fn rest(self) -> Seq<u8> {
        self.remainder@
    }

    /// The number of bytes read so far.
    pub closed spec fn offset(self) -> usize {
        self.read_offset
    }

    /// The whole buffer the reader reads.
    pub closed spec fn source(self) -> Seq<u8> {
        self.source@
    }

    /// The messages `next` yielded so far, in order, each as its header and arguments.
    pub closed spec fn yielded(self) -> Seq<(WaylandHeader, Seq<u8>)> {
        self.yielded@
    }

    /// Starts reading `buf` from its first byte.
    pub fn new(buf: &'a [u8]) -> (r: MsgBufReader<'a>)
        ensures
            r.rest() == buf@,
            r.offset() == 0,
            r.source() == buf@,
            r.yielded() == Seq::<(WaylandHeader, Seq<u8>)>::empty(),
    {
        let len = buf.len();
        assert(len == buf@.len());
        assert(buf@.subrange(0, buf@.len() as int) =~= buf@);
        assert(buf@.subrange(0, 0) =~= encoded_messages(Seq::<(WaylandHeader, Seq<u8>)>::empty()));
        MsgBufReader {
            remainder: buf,
            read_offset: 0,
            source: Ghost(buf@),
            yielded: Ghost(Seq::empty()),
        }
    }

    /// Tells whether the unread bytes start with a header whose size is smaller than a header.
    pub fn at_malformed_header(&self) -> (b: bool)
        ensures
            b == has_malformed_header(self.rest()),
    {
        if self.remainder.len() < WL_HEADER_SIZE {
            false
        } else {
            let (header, _) = parse_wl_header(self.remainder);
            header.msg_size < WL_HEADER_SIZE
        }
    }

    /// Returns the offset of the remainder bytes (any unparsed/unread events) and consumes the struct
    ///
    /// The offset is the sum of the sizes of the messages yielded, which, encoded again in
    /// order, are exactly the bytes before it; the bytes after it are the unread ones.
    pub fn finish(self) -> (offset: usize)
        ensures
            offset == self.offset(),
            offset == sizes_sum(self.yielded()),
            offset <= self.source().len(),
            self.source().subrange(0, offset as int) == encoded_messages(self.yielded()),
            self.source().subrange(offset as int, self.source().len() as int) == self.rest(),
    {
        proof {
            use_type_invariant(&self);
        }
        self.read_offset
    }

    /// Returns the header, reference to the arguments slice, and the size of the arguments slice
    /// (in bytes) of the next complete message, or `None` when the unread bytes do not hold one.
    pub fn next(&mut self) -> (item: Option<(WaylandHeader, &'a [u8], usize)>)
        requires
            !has_malformed_header(old(self).rest()),
        ensures
            has_complete_message(old(self).rest()) <==> item is Some,
            final(self).source() == old(self).source(),
            match item {
                None => *final(self) == *old(self),
                Some((header, args, args_size)) => {
                    let size = header.msg_size as int;
                    &&& header == spec_header(old(self).rest())
                    &&& args_size == size - 8
                    &&& args@ == old(self).rest().subrange(8, size)
                    &&& final(self).rest() == old(self).rest().subrange(size, old(self).rest().len() as int)
                    &&& final(self).offset() == old(self).offset() + size
                    &&& final(self).yielded() == old(self).yielded().push((header, args@))
                },
            },
    {
        proof {
            use_type_invariant(&*self);
        }
        if self.remainder.len() == 0 {
            None
        } else if self.remainder.len() < WL_HEADER_SIZE {
            None
        } else {
            let (header, remaining) = parse_wl_header(self.remainder);
            let args_size = header.msg_size - WL_HEADER_SIZE;
            if args_size > remaining.len() {
                None
            } else {
                let args = &remaining[0..args_size];
                let ghost rest0 = self.remainder@;
                let ghost off0 = self.read_offset as int;
                let ghost src = self.source@;
                let ghost msgs = self.yielded@.push((header, args@));
                proof {
                    lemma_message_reencodes(rest0);
                    assert(msgs.drop_last() =~= self.yielded@);
                    assert(encoded_messages(msgs) == encoded_messages(self.yielded@) + message_bytes(
                        header.object_id,
                        header.opcode,
                        args@,
                    ));
                    assert(sizes_sum(msgs) == sizes_sum(self.yielded@) + header.msg_size);

                }
                let next_offset = self.read_offset + header.msg_size;
                let unread = &remaining[args_size..remaining.len()];
                proof {
                    assert(unread@ =~= rest0.subrange(header.msg_size as int, rest0.len() as int));
                    assert(src.subrange(off0, src.len() as int) == rest0);
                    assert(src.subrange(0, next_offset as int) =~= src.subrange(0, off0)
                        + src.subrange(off0, src.len() as int).subrange(0, header.msg_size as int));
                    assert(src.subrange(0, next_offset as int) == encoded_messages(msgs));
                    assert(src.subrange(next_offset as int, src.len() as int) =~= src.subrange(
                        off0,
                        src.len() as int,
                    ).subrange(header.msg_size as int, rest0.len() as int));
                    assert(src.subrange(next_offset as int, src.len() as int) == unread@);
                    assert(next_offset == sizes_sum(msgs));
                    assert(src.len() == next_offset + unread@.len());
                }
                *self = MsgBufReader {
                    remainder: unread,
                    read_offset: next_offset,
                    source: Ghost(src),
                    yielded: Ghost(msgs),
                };
                Some((header, args, args_size))
            }
        }
    }
}

} // verus!

verus! {

/// A buffer that starts with a complete message splits into that message and the rest.
pub proof fn lemma_complete_unfold(buf: Seq<u8>)
    requires
        has_complete_message(buf),
    ensures
        ({
            let size = spec_header(buf).msg_size as int;
            let next = buf.subrange(size, buf.len() as int);
            &&& complete_messages(buf) == seq![(spec_header(buf), buf.subrange(8, size))]
                + complete_messages(next)
            &&& complete_messages(buf).len() == 1 + complete_messages(next).len()
            &&& complete_messages(buf)[0] == (spec_header(buf), buf.subrange(8, size))
            &&& complete_messages(buf).subrange(1, complete_messages(buf).len() as int)
                == complete_messages(next)
            &&& complete_len(buf) == size + complete_len(next)
            &&& incomplete_tail(buf) == incomplete_tail(next)
        }),
{
    let size = spec_header(buf).msg_size as int;
    let next = buf.subrange(size, buf.len() as int);
    let head = seq![(spec_header(buf), buf.subrange(8, size))];
    assert((head + complete_messages(next)).subrange(1, 1 + complete_messages(next).len() as int)
        =~= complete_messages(next));
}

/// A complete message encoded again from its header's object id and opcode and its arguments
/// gives back exactly its bytes.
pub proof fn lemma_message_reencodes(buf: Seq<u8>)
    requires
        has_complete_message(buf),
    ensures
        ({
            let h = spec_header(buf);
            message_bytes(h.object_id, h.opcode, buf.subrange(8, h.msg_size as int))
                == buf.subrange(0, h.msg_size as int)
        }),
{
    let h = spec_header(buf);
    let size = h.msg_size as int;
    lemma_u32_ne_bytes_roundtrip(buf.subrange(0, 4));
    lemma_u16_ne_bytes_roundtrip(buf.subrange(4, 6));
    lemma_u16_ne_bytes_roundtrip(buf.subrange(6, 8));
    let args = buf.subrange(8, size);
    assert((8 + args.len() as int) as u16 == spec_u16_at(buf, 6));
    assert(message_bytes(h.object_id, h.opcode, args) =~= buf.subrange(0, size));
}

/// The bytes after the complete messages do not start with another complete message.
pub proof fn lemma_tail_incomplete(buf: Seq<u8>)
    ensures
        !has_complete_message(incomplete_tail(buf)),
    decreases buf.len(),
{
    if has_complete_message(buf) {
        let h = spec_header(buf);
        lemma_tail_incomplete(buf.subrange(h.msg_size as int, buf.len() as int));
    }
}

/// A buffer that does not start with a complete message holds no complete messages.
pub proof fn lemma_complete_none(buf: Seq<u8>)
    requires
        !has_complete_message(buf),
    ensures
        complete_messages(buf) == Seq::<(WaylandHeader, Seq<u8>)>::empty(),
        complete_len(buf) == 0,
        incomplete_tail(buf) == buf,
{
}

} // verus!

verus! {

/// Every encoded message reads back as one complete message with its header and arguments,
/// followed by whatever came after it: what one side sends, the other side reads.
pub proof fn lemma_message_frames(object_id: u32, opcode: u16, args: Seq<u8>, rest: Seq<u8>)
    requires
        8 + args.len() <= u16::MAX,
    ensures
        ({
            let buf = message_bytes(object_id, opcode, args) + rest;
            let header = WaylandHeader { object_id, opcode, msg_size: (8 + args.len()) as usize };
            &&& has_complete_message(buf)
            &&& complete_messages(buf) == seq![(header, args)] + complete_messages(rest)
            &&& complete_len(buf) == 8 + args.len() + complete_len(rest)
            &&& incomplete_tail(buf) == incomplete_tail(rest)
        }),
{
    let buf = message_bytes(object_id, opcode, args) + rest;
    lemma_message_roundtrip(object_id, opcode, args, rest);
    lemma_complete_unfold(buf);
}

} // verus!
