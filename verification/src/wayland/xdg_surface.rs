//! Requests and events of `xdg_surface`.
use crate::bytes::{ne_u32_bytes, push_ne_u32};
use crate::wayland::comm::{queued, queued_with_new_id, WaylandComm};
use vstd::prelude::*;

pub mod events;
pub mod opcodes;

verus! {

pub trait XdgSurface: WaylandComm {
    /// Queues `xdg_surface.destroy`.
    fn xdg_surface_destroy(&mut self, xdg_surface_id: u32)
        ensures
            queued(*old(self), *final(self), xdg_surface_id, opcodes::DESTROY, Seq::<u8>::empty()),
    {
        let args: [u8; 0] = [];
        self.send_req(xdg_surface_id, opcodes::DESTROY, &args);
        assert(args@ =~= Seq::<u8>::empty());
    }

    /// Queues `xdg_surface.get_toplevel` and returns the new toplevel's id.
    fn xdg_surface_get_toplevel(&mut self, xdg_surface_id: u32) -> (new_id: u32)
        requires
            old(self).last_id() < u32::MAX,
        ensures
            queued_with_new_id(
                *old(self),
                *final(self),
                xdg_surface_id,
                opcodes::GET_TOPLEVEL,
                ne_u32_bytes(new_id),
                None,
                new_id,
            ),
    {
        let new_id = self.get_new_id();
        let mut args: Vec<u8> = Vec::new();
        push_ne_u32(&mut args, new_id);
        self.send_req(xdg_surface_id, opcodes::GET_TOPLEVEL, args.as_slice());
        new_id
    }

    /// Queues `xdg_surface.ack_configure` for the configure event with this serial.
    fn xdg_surface_ack_configure(&mut self, xdg_surface_id: u32, serial: u32)
        ensures
            queued(
                *old(self),
                *final(self),
                xdg_surface_id,
                opcodes::ACK_CONFIGURE,
                ne_u32_bytes(serial),
            ),
    {
        let mut args: Vec<u8> = Vec::new();
        push_ne_u32(&mut args, serial);
        self.send_req(xdg_surface_id, opcodes::ACK_CONFIGURE, args.as_slice());
    }
}

impl<T: WaylandComm> XdgSurface for T {}

} // verus!
