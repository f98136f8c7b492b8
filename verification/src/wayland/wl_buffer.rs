//! Requests and events of `wl_buffer`.
use crate::wayland::comm::{queued, WaylandComm};
use vstd::prelude::*;

pub mod events;
pub mod opcodes;

verus! {

pub trait WlBuffer: WaylandComm {
    /// Queues `wl_buffer.destroy`.
    fn wl_buffer_destroy(&mut self, wl_buffer_id: u32)
        ensures
            queued(*old(self), *final(self), wl_buffer_id, opcodes::DESTROY, Seq::<u8>::empty()),
    {
        let args: [u8; 0] = [];
        self.send_req(wl_buffer_id, opcodes::DESTROY, &args);
        assert(args@ =~= Seq::<u8>::empty());
    }
}

impl<T: WaylandComm> WlBuffer for T {}

} // verus!
