//! Requests and events of `wl_display`.
use crate::bytes::{ne_u32_bytes, u32_to_ne_bytes};
use crate::wayland::codec::{
    check_wl_string, read_wl_string, read_wl_u32, spec_u32_at, wl_string_ok, wl_string_size,
};
use crate::wayland::comm::{queued_with_new_id, WaylandComm};
use vstd::prelude::*;

pub mod events;
pub mod opcodes;

verus! {

/// The id of the display object, which exists from the start of every connection.
pub const OBJECT_ID: u32 = 1;

/// A fatal error reported by the compositor through `wl_display.error`.
#[derive(Debug)]
pub struct WlDisplayError {
    pub object_id: u32,
    pub error_code: u32,
    /// The message, without its terminating nul.
    pub msg: Vec<u8>,
}

impl View for WlDisplayError {
    type V = (u32, u32, Seq<u8>);

    open spec fn view(&self) -> (u32, u32, Seq<u8>) {
        (self.object_id, self.error_code, self.msg@)
    }
}

/// The arguments of a `wl_display.error` event are well formed: two `u32`s and a string, whose
/// padded size fills exactly the rest of the arguments.
pub open spec fn display_error_ok(args: Seq<u8>) -> bool {
    &&& args.len() >= 8
    &&& wl_string_ok(args.subrange(8, args.len() as int))
    &&& 8 + crate::bytes::roundup4(wl_string_size(args.subrange(8, args.len() as int))) + 4
        == args.len()
}

/// The message of the `wl_display.error` event with these arguments.
pub open spec fn display_error_msg(args: Seq<u8>) -> Seq<u8> {
    args.subrange(12, 12 + wl_string_size(args.subrange(8, args.len() as int)) - 1)
}

impl WlDisplayError {
    /// Decodes the arguments of a `wl_display.error` event, or returns `None` when they are not
    /// well formed.
    pub fn from_error_event(args: &[u8]) -> (r: Option<WlDisplayError>)
        ensures
            r is Some <==> display_error_ok(args@),
            r matches Some(e) ==> {
                &&& e.object_id == spec_u32_at(args@, 0)
                &&& e.error_code == spec_u32_at(args@, 4)
                &&& e.msg@ == display_error_msg(args@)
            },
    {
        if args.len() < 8 {
            return None;
        }
        let (object_id, rest) = read_wl_u32(args);
        let (error_code, rest) = read_wl_u32(rest);
        proof {
            assert(rest@ =~= args@.subrange(8, args@.len() as int));
            assert(args@.subrange(4, args@.len() as int).subrange(0, 4) =~= args@.subrange(4, 8));
        }
        if !check_wl_string(rest) {
            return None;
        }
        let (_, msg_str_padded_size, msg, _) = read_wl_string(rest);
        if msg_str_padded_size != args.len() - 8 {
            return None;
        }
        let mut owned: Vec<u8> = Vec::new();
        let mut i: usize = 0;
        while i < msg.len()
            invariant
                i <= msg@.len(),
                owned@ == msg@.subrange(0, i as int),
            decreases msg@.len() - i,
        {
            owned.push(msg[i]);
            i = i + 1;
            assert(owned@ =~= msg@.subrange(0, i as int));
        }
        assert(msg@.subrange(0, msg@.len() as int) =~= msg@);
        assert(msg@ =~= display_error_msg(args@));
        Some(WlDisplayError { object_id, error_code, msg: owned })
    }
}

pub trait WlDisplay: WaylandComm {
    /// Sends the `wl_display.get_registry` request
    fn wl_display_get_registry(&mut self) -> (new_id: u32)
        requires
            old(self).last_id() < u32::MAX,
        ensures
            queued_with_new_id(
                *old(self),
                *final(self),
                OBJECT_ID,
                opcodes::GET_REGISTRY,
                ne_u32_bytes(new_id),
                None,
                new_id,
            ),
    {
        let new_id = self.get_new_id();
        let args = u32_to_ne_bytes(new_id);
        self.send_req(OBJECT_ID, opcodes::GET_REGISTRY, &args);
        new_id
    }
}

impl<T: WaylandComm> WlDisplay for T {}

} // verus!
