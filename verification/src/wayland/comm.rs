//! The connection's request queue, receive buffer and object ids.
use crate::bytes::{u16_to_ne_bytes, u32_to_ne_bytes};
use crate::wayland::codec::{message_bytes, WL_HEADER_SIZE};
use crate::wayland::reader::MsgBufReader;
use vstd::prelude::*;

verus! {

/// Size in bytes of the buffer that received events are read into.
pub const MSG_BUF_SIZE: usize = 4096;

/// A request ready to be written to the socket, with the file descriptor to pass along it.
pub struct OutMessage {
    pub data: Vec<u8>,
    pub fd: Option<i32>,
}

impl OutMessage {
    /// The bytes of the request and the descriptor sent with it.
    pub open spec fn view_pair(self) -> (Seq<u8>, Option<i32>) {
        (self.data@, self.fd)
    }
}

pub trait WaylandComm: Sized {
    /// The requests queued so far, oldest first, each with the descriptor sent along it.
    spec fn sent(&self) -> Seq<(Seq<u8>, Option<i32>)>;

    /// The last object id handed out.
    spec fn last_id(&self) -> u32;

    /// The received bytes that have not been handled yet.
    spec fn received(&self) -> Seq<u8>;

    /// How many more bytes the receive buffer can hold.
    spec fn free_space(&self) -> nat;

    /// Sends a request (message) to the server
    fn send_req(&mut self, object_id: u32, opcode: u16, args: &[u8])
        requires
            WL_HEADER_SIZE + args@.len() <= u16::MAX,
        ensures
            final(self).sent() == old(self).sent().push((message_bytes(object_id, opcode, args@), None::<i32>)),
            final(self).last_id() == old(self).last_id(),
            final(self).received() == old(self).received(),
            final(self).free_space() == old(self).free_space(),
    ;

    /// Sends a request (message) to the server along with a file descriptor in the ancillary data
    fn send_req_with_fd(&mut self, object_id: u32, opcode: u16, args: &[u8], raw_fd: i32)
        requires
            WL_HEADER_SIZE + args@.len() <= u16::MAX,
        ensures
            final(self).sent() == old(self).sent().push((message_bytes(object_id, opcode, args@), Some(raw_fd))),
            final(self).last_id() == old(self).last_id(),
            final(self).received() == old(self).received(),
            final(self).free_space() == old(self).free_space(),
    ;

    /// Packs the header and arguments of a wayland request (message) into a single u8 vec/buffer.
    /// Returns the Vec<u8> buffer and the message size in bytes
    fn pack_req_data(&self, object_id: u32, opcode: u16, args: &[u8]) -> (r: (Vec<u8>, usize))
        requires
            WL_HEADER_SIZE + args@.len() <= u16::MAX,
        ensures
            r.0@ == message_bytes(object_id, opcode, args@),
            r.1 == WL_HEADER_SIZE + args@.len(),
    {
        let msg_size = WL_HEADER_SIZE + args.len();
        let msg_size_u16 = msg_size as u16;
        let id_bytes = u32_to_ne_bytes(object_id);
        let opcode_bytes = u16_to_ne_bytes(opcode);
        let size_bytes = u16_to_ne_bytes(msg_size_u16);
        let mut buf: Vec<u8> = Vec::new();
        buf.push(id_bytes[0]);
        buf.push(id_bytes[1]);
        buf.push(id_bytes[2]);
        buf.push(id_bytes[3]);
        buf.push(opcode_bytes[0]);
        buf.push(opcode_bytes[1]);
        buf.push(size_bytes[0]);
        buf.push(size_bytes[1]);
        let ghost head = buf@;
        assert(head =~= message_bytes(object_id, opcode, args@).subrange(0, 8));
        let mut i: usize = 0;
        while i < args.len()
            invariant
                i <= args@.len(),
                head.len() == 8,
                buf@ == head + args@.subrange(0, i as int),
            decreases args@.len() - i,
        {
            buf.push(args[i]);
            i = i + 1;
            assert(buf@ =~= head + args@.subrange(0, i as int));
        }
        assert(buf@ =~= message_bytes(object_id, opcode, args@));
        (buf, msg_size)
    }

    /// Stores received bytes after the ones not handled yet.
    fn read_events(&mut self, data: &[u8])
        requires
            data@.len() <= old(self).free_space(),
        ensures
            final(self).received() == old(self).received() + data@,
            final(self).free_space() == old(self).free_space() - data@.len(),
            final(self).sent() == old(self).sent(),
            final(self).last_id() == old(self).last_id(),
    ;

    /// Returns a `MsgBufReader` over the received bytes, whose `next` yields one complete
    /// message at a time as its header and argument bytes.
    ///
    /// Once all events are handled, consume the `MsgBufReader` with `.finish()` and pass the
    /// offset it returns to `.reset_buffer()`.
    fn reader(&self) -> (r: MsgBufReader<'_>)
        ensures
            r.rest() == self.received(),
            r.offset() == 0,
    ;

    /// To be called when events handling is finished. Takes an offset to any remainder bytes and moves those back to the start of
    /// the buffer, and can start reading the next set of bytes
    fn reset_buffer(&mut self, remainder_offset: usize)
        requires
            remainder_offset <= old(self).received().len(),
        ensures
            final(self).received() == old(self).received().subrange(
                remainder_offset as int,
                old(self).received().len() as int,
            ),
            final(self).free_space() == old(self).free_space() + remainder_offset,
            final(self).sent() == old(self).sent(),
            final(self).last_id() == old(self).last_id(),
    ;

    /// Returns a sequential ID to create a new wayland object
    fn get_new_id(&mut self) -> (id: u32)
        requires
            old(self).last_id() < u32::MAX,
        ensures
            id == old(self).last_id() + 1,
            final(self).last_id() == id,
            final(self).sent() == old(self).sent(),
            final(self).received() == old(self).received(),
            final(self).free_space() == old(self).free_space(),
    ;
}

/// The protocol side of a connection to the compositor: requests waiting to be written,
/// received bytes waiting to be handled, and the last object id handed out.
pub struct WaylandConnection {
    last_obj_id: u32,
    msg_buf: Vec<u8>,
    write_offset: usize,
    outgoing: Vec<OutMessage>,
}

impl WaylandConnection {
    #[verifier::type_invariant]
    spec fn inv(self) -> bool {
        &&& self.msg_buf@.len() == MSG_BUF_SIZE
        &&& self.write_offset <= MSG_BUF_SIZE
        &&& self.last_obj_id >= 1
    }

    /// A connection with nothing queued or received, whose last handed out id is that of the
    /// display object.
    pub fn new() -> (c: Self)
        ensures
            c.sent() == Seq::<(Seq<u8>, Option<i32>)>::empty(),
            c.received() == Seq::<u8>::empty(),
            c.last_id() == 1,
            c.free_space() == MSG_BUF_SIZE,
    {
        let msg_buf: Vec<u8> = vec![0u8; MSG_BUF_SIZE];
        let c = WaylandConnection { last_obj_id: 1, msg_buf, write_offset: 0, outgoing: Vec::new() };
        assert(c.received() =~= Seq::<u8>::empty());
        assert(c.sent() =~= Seq::<(Seq<u8>, Option<i32>)>::empty());
        c
    }

    /// How many more bytes the receive buffer can hold.
    pub fn free_space_len(&self) -> (n: usize)
        ensures
            n == self.free_space(),
            self.received().len() + self.free_space() == MSG_BUF_SIZE,
    {
        proof {
            use_type_invariant(self);
        }
        MSG_BUF_SIZE - self.write_offset
    }

    /// A copy of the received bytes that have not been handled yet.
    pub fn received_bytes(&self) -> (data: Vec<u8>)
        ensures
            data@ == self.received(),
            self.received().len() + self.free_space() == MSG_BUF_SIZE,
    {
        proof {
            use_type_invariant(self);
        }
        let mut data: Vec<u8> = Vec::new();
        let mut i: usize = 0;
        while i < self.write_offset
            invariant
                i <= self.write_offset,
                self.write_offset <= self.msg_buf@.len(),
                data@ == self.msg_buf@.subrange(0, i as int),
            decreases self.write_offset - i,
        {
            data.push(self.msg_buf[i]);
            i = i + 1;
            assert(data@ =~= self.msg_buf@.subrange(0, i as int));
        }
        data
    }

    /// The last object id handed out: the display's id 1 until the first one is handed out.
    pub fn last_obj_id(&self) -> (id: u32)
        ensures
            id == self.last_id(),
            id >= 1,
    {
        proof {
            use_type_invariant(self);
        }
        self.last_obj_id
    }

    /// Hands out the queued requests, oldest first, and empties the queue.
    pub fn take_requests(&mut self) -> (reqs: Vec<OutMessage>)
        ensures
            reqs@.map_values(|m: OutMessage| m.view_pair()) == old(self).sent(),
            final(self).sent() == Seq::<(Seq<u8>, Option<i32>)>::empty(),
            final(self).last_id() == old(self).last_id(),
            final(self).received() == old(self).received(),
            final(self).free_space() == old(self).free_space(),
    {
        proof {
            use_type_invariant(&*self);
        }
        let mut reqs: Vec<OutMessage> = Vec::new();
        std::mem::swap(&mut reqs, &mut self.outgoing);
        assert(self.sent() =~= Seq::<(Seq<u8>, Option<i32>)>::empty());
        reqs
    }
}

impl WaylandComm for WaylandConnection {
    closed spec fn sent(&self) -> Seq<(Seq<u8>, Option<i32>)> {
        self.outgoing@.map_values(|m: OutMessage| m.view_pair())
    }

    closed spec fn last_id(&self) -> u32 {
        self.last_obj_id
    }

    closed spec fn received(&self) -> Seq<u8> {
        self.msg_buf@.subrange(0, self.write_offset as int)
    }

    closed spec fn free_space(&self) -> nat {
        (MSG_BUF_SIZE - self.write_offset) as nat
    }

    fn send_req(&mut self, object_id: u32, opcode: u16, args: &[u8]) {
        proof {
            use_type_invariant(&*self);
        }
        let (msg_data, _) = self.pack_req_data(object_id, opcode, args);
        let ghost before = self.outgoing@;
        let mut out: Vec<OutMessage> = Vec::new();
        std::mem::swap(&mut out, &mut self.outgoing);
        out.push(OutMessage { data: msg_data, fd: None });
        self.outgoing = out;
        assert(self.outgoing@.map_values(|m: OutMessage| m.view_pair()) =~= before.map_values(
            |m: OutMessage| m.view_pair(),
        ).push((message_bytes(object_id, opcode, args@), None::<i32>)));
    }

    fn send_req_with_fd(&mut self, object_id: u32, opcode: u16, args: &[u8], raw_fd: i32) {
        proof {
            use_type_invariant(&*self);
        }
        let (msg_data, _) = self.pack_req_data(object_id, opcode, args);
        let ghost before = self.outgoing@;
        let mut out: Vec<OutMessage> = Vec::new();
        std::mem::swap(&mut out, &mut self.outgoing);
        out.push(OutMessage { data: msg_data, fd: Some(raw_fd) });
        self.outgoing = out;
        assert(self.outgoing@.map_values(|m: OutMessage| m.view_pair()) =~= before.map_values(
            |m: OutMessage| m.view_pair(),
        ).push((message_bytes(object_id, opcode, args@), Some(raw_fd))));
    }

    fn read_events(&mut self, data: &[u8]) {
        proof {
            use_type_invariant(&*self);
        }
        let ghost old_buf = self.msg_buf@;
        let start = self.write_offset;
        let mut i: usize = 0;
        while i < data.len()
            invariant
                i <= data@.len(),
                start + data@.len() <= MSG_BUF_SIZE,
                self.msg_buf@.len() == MSG_BUF_SIZE,
                self.write_offset == start,
                old_buf.len() == MSG_BUF_SIZE,
                self.outgoing == old(self).outgoing,
                self.last_obj_id == old(self).last_obj_id,
                self.last_obj_id >= 1,
                self.msg_buf@.subrange(0, start as int) == old_buf.subrange(0, start as int),
                self.msg_buf@.subrange(start as int, start + i) == data@.subrange(0, i as int),
            decreases data@.len() - i,
        {
            self.msg_buf[start + i] = data[i];
            i = i + 1;
            assert(self.msg_buf@.subrange(start as int, start + i) =~= data@.subrange(0, i as int));
            assert(self.msg_buf@.subrange(0, start as int) =~= old_buf.subrange(0, start as int));
        }
        assert(data@.subrange(0, data@.len() as int) =~= data@);
        let ghost filled = self.msg_buf@;
        assert(filled.subrange(0, start + data@.len()) =~= filled.subrange(0, start as int)
            + filled.subrange(start as int, start + data@.len()));
        self.write_offset = start + data.len();
        assert(self.msg_buf@.subrange(0, self.write_offset as int) =~= old_buf.subrange(
            0,
            start as int,
        ) + data@);
    }

    fn reader(&self) -> (r: MsgBufReader<'_>) {
        proof {
            use_type_invariant(self);
        }
        MsgBufReader::new(&self.msg_buf.as_slice()[0..self.write_offset])
    }

    fn reset_buffer(&mut self, remainder_offset: usize) {
        proof {
            use_type_invariant(&*self);
        }
        let ghost old_buf = self.msg_buf@;
        let end = self.write_offset;
        let n = end - remainder_offset;
        let mut i: usize = 0;
        while i < n
            invariant
                i <= n,
                n == end - remainder_offset,
                end <= MSG_BUF_SIZE,
                self.write_offset == end,
                self.msg_buf@.len() == MSG_BUF_SIZE,
                old_buf.len() == MSG_BUF_SIZE,
                self.outgoing == old(self).outgoing,
                self.last_obj_id == old(self).last_obj_id,
                self.last_obj_id >= 1,
                forall|j: int| 0 <= j < i ==> self.msg_buf@[j] == old_buf[remainder_offset + j],
                forall|j: int| i <= j < MSG_BUF_SIZE ==> self.msg_buf@[j] == old_buf[j],
            decreases n - i,
        {
            let b = self.msg_buf[remainder_offset + i];
            self.msg_buf[i] = b;
            i = i + 1;
        }
        self.write_offset = n;
        assert(self.msg_buf@.subrange(0, n as int) =~= old_buf.subrange(0, end as int).subrange(
            remainder_offset as int,
            end as int,
        ));
    }

    /// Every id handed out is past the display's id 1: the first is 2, and each is one more
    /// than the one before.
    fn get_new_id(&mut self) -> (id: u32)
        ensures
            id >= 2,
    {
        proof {
            use_type_invariant(&*self);
        }
        self.last_obj_id = self.last_obj_id + 1;
        self.last_obj_id
    }
}

} // verus!

verus! {

/// `after` is `before` with one more request queued: the message with these object id, opcode
/// and arguments, sent without a descriptor. Nothing else changed.
pub open spec fn queued<C: WaylandComm>(
    before: C,
    after: C,
    object_id: u32,
    opcode: u16,
    args: Seq<u8>,
) -> bool {
    &&& after.sent() == before.sent().push((message_bytes(object_id, opcode, args), None::<i32>))
    &&& after.last_id() == before.last_id()
    &&& after.received() == before.received()
    &&& after.free_space() == before.free_space()
}

/// `after` is `before` with the next object id handed out as `id` and then one more request
/// queued: the message with these object id, opcode and arguments, sent along `fd`.
pub open spec fn queued_with_new_id<C: WaylandComm>(
    before: C,
    after: C,
    object_id: u32,
    opcode: u16,
    args: Seq<u8>,
    fd: Option<i32>,
    id: u32,
) -> bool {
    &&& id == before.last_id() + 1
    &&& after.last_id() == id
    &&& after.sent() == before.sent().push((message_bytes(object_id, opcode, args), fd))
    &&& after.received() == before.received()
    &&& after.free_space() == before.free_space()
}

} // verus!
