//! Requests and events of `xdg_wm_base`.
use crate::bytes::{ne_u32_bytes, push_ne_u32};
use crate::wayland::comm::{queued, queued_with_new_id, WaylandComm};
use vstd::prelude::*;

pub mod events;
pub mod opcodes;

verus! {

pub trait XdgWmBase: WaylandComm {
    /// Queues `xdg_wm_base.get_xdg_surface` for the surface and returns the new xdg surface's id.
    fn xdg_wm_base_get_xdg_surface(&mut self, xdg_wm_base_id: u32, wl_surface_id: u32) -> (new_id:
        u32)
        requires
            old(self).last_id() < u32::MAX,
        ensures
            queued_with_new_id(
                *old(self),
                *final(self),
                xdg_wm_base_id,
                opcodes::GET_XDG_SURFACE,
                ne_u32_bytes(new_id) + ne_u32_bytes(wl_surface_id),
                None,
                new_id,
            ),
    {
        let new_id = self.get_new_id();
        let mut args: Vec<u8> = Vec::new();
        push_ne_u32(&mut args, new_id);
        push_ne_u32(&mut args, wl_surface_id);
        self.send_req(xdg_wm_base_id, opcodes::GET_XDG_SURFACE, args.as_slice());
        new_id
    }

    /// Queues `xdg_wm_base.destroy`.
    fn xdg_wm_base_destroy(&mut self, xdg_wm_base_id: u32)
        ensures
            queued(*old(self), *final(self), xdg_wm_base_id, opcodes::DESTROY, Seq::<u8>::empty()),
    {
        let args: [u8; 0] = [];
        self.send_req(xdg_wm_base_id, opcodes::DESTROY, &args);
        assert(args@ =~= Seq::<u8>::empty());
    }

    /// Queues `xdg_wm_base.pong` answering the ping with this serial.
    fn xdg_wm_base_pong(&mut self, xdg_wm_base_id: u32, serial: u32)
        ensures
            queued(*old(self), *final(self), xdg_wm_base_id, opcodes::PONG, ne_u32_bytes(serial)),
    {
        let mut args: Vec<u8> = Vec::new();
        push_ne_u32(&mut args, serial);
        self.send_req(xdg_wm_base_id, opcodes::PONG, args.as_slice());
    }
}

impl<T: WaylandComm> XdgWmBase for T {}

} // verus!
