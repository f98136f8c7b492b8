//! Requests of `wl_compositor`.
use crate::bytes::{ne_u32_bytes, u32_to_ne_bytes};
use crate::wayland::comm::{queued_with_new_id, WaylandComm};
use vstd::prelude::*;

pub mod opcodes;

verus! {

pub trait WlCompositor: WaylandComm {
    /// Queues `wl_compositor.create_surface` for a new surface and returns the surface's id.
    fn wl_compositor_create_surface(&mut self, wl_compositor_id: u32) -> (new_id: u32)
        requires
            old(self).last_id() < u32::MAX,
        ensures
            queued_with_new_id(
                *old(self),
                *final(self),
                wl_compositor_id,
                opcodes::CREATE_SERVICE,
                ne_u32_bytes(new_id),
                None,
                new_id,
            ),
    {
        let new_id = self.get_new_id();
        let args = u32_to_ne_bytes(new_id);
        self.send_req(wl_compositor_id, opcodes::CREATE_SERVICE, &args);
        new_id
    }
}

impl<T: WaylandComm> WlCompositor for T {}

} // verus!
